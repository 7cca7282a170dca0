//! Shadow records: declarations that mirror the field layout of a primary
//! record while giving every field one caller-chosen type.
//!
//! The entries take the text of a call, `{ primary } , specification , ..`,
//! and return the text of the declarations that the call stands for.

pub mod attr;
pub mod derive;
pub mod emit;
pub mod error;
pub mod field;
pub mod record;
pub mod shadow;
pub mod shape;
pub mod split;
pub mod token;

use crate::emit::{declaration_text, declarations_text, emit, emit_all};
use crate::error::{error_at, result_view, ErrorKind, ParseError, Place};
use crate::record::{parse_record, record_of};
use crate::shadow::{
    expand, expanded, generated, lemma_shadow_specs_trailing_comma, parse_shadow_specs,
    shadow_specs, ShadowSpec, ShadowSpecView,
};
use crate::shape::{RecordShape, RecordShapeView};
use crate::token::{copy_range, lex, lexed, Delimiter, Token, TokenView};
use vstd::prelude::*;

verus! {

/// The text of the primary declaration in a call: what the brace group
/// at its head encloses.
pub open spec fn call_primary(call: Seq<TokenView>) -> Result<Seq<char>, ParseError> {
    if 0 < call.len() && call[0].is_group(Delimiter::Brace) {
        Ok(call[0].inner())
    } else {
        Err(error_at(ErrorKind::MalformedRecord, Place::Call, 0))
    }
}

/// The shadow specifications in a call: what follows the primary and a
/// comma. What is malformed in one of them is counted in their list.
pub open spec fn call_specs(call: Seq<TokenView>) -> Result<Seq<ShadowSpecView>, ParseError> {
    if call.len() < 2 {
        Err(error_at(ErrorKind::MalformedShadowSpec, Place::Call, call.len() as int))
    } else if !call[1].is_punct(',') {
        Err(error_at(ErrorKind::MalformedShadowSpec, Place::Call, 1))
    } else {
        shadow_specs(call.subrange(2, call.len() as int))
    }
}

/// The records that a call stands for, where reading its primary
/// declaration gave `primary`: the primary and one shadow record for each
/// specification. A malformed primary is reported before a malformed
/// specification.
pub open spec fn expansion_from(
    call: Seq<TokenView>,
    primary: Result<RecordShapeView, ParseError>,
) -> Result<Seq<RecordShapeView>, ParseError> {
    match call_primary(call) {
        Err(e) => Err(e),
        Ok(_) => match primary {
            Err(e) => Err(e),
            Ok(shape) => match call_specs(call) {
                Err(e) => Err(e),
                Ok(specs) => Ok(expanded(shape, specs)),
            },
        },
    }
}

/// The records that the call `text` stands for.
pub open spec fn expansion_of(text: Seq<char>) -> Result<Seq<RecordShapeView>, ParseError> {
    match lexed(text) {
        None => Err(error_at(ErrorKind::MalformedRecord, Place::Call, 0)),
        Some(call) => match call_primary(call) {
            Err(e) => Err(e),
            Ok(primary) => expansion_from(call, record_of(primary)),
        },
    }
}

/// The one shadow record among the records of a call with a single
/// specification; a call with more is malformed at its end.
pub open spec fn only_shadow(
    call: Seq<TokenView>,
    records: Result<Seq<RecordShapeView>, ParseError>,
) -> Result<RecordShapeView, ParseError> {
    match records {
        Err(e) => Err(e),
        Ok(records) => if records.len() == 2 {
            Ok(records[1])
        } else {
            Err(error_at(ErrorKind::MalformedShadowSpec, Place::Call, call.len() as int))
        },
    }
}

/// The shadow record that the call `text` stands for.
pub open spec fn shadow_of(text: Seq<char>) -> Result<RecordShapeView, ParseError> {
    match lexed(text) {
        None => Err(error_at(ErrorKind::MalformedRecord, Place::Call, 0)),
        Some(call) => only_shadow(call, expansion_of(text)),
    }
}

/// The primary record of a call that holds nothing but its primary
/// declaration, where reading it gave `primary`.
pub open spec fn primary_from(
    call: Seq<TokenView>,
    primary: Result<RecordShapeView, ParseError>,
) -> Result<RecordShapeView, ParseError> {
    match call_primary(call) {
        Err(e) => Err(e),
        Ok(_) => if call.len() != 1 {
            Err(error_at(ErrorKind::MalformedRecord, Place::Call, 1))
        } else {
            primary
        },
    }
}

/// The primary record of the call `text`.
pub open spec fn primary_of(text: Seq<char>) -> Result<RecordShapeView, ParseError> {
    match lexed(text) {
        None => Err(error_at(ErrorKind::MalformedRecord, Place::Call, 0)),
        Some(call) => match call_primary(call) {
            Err(e) => Err(e),
            Ok(primary) => primary_from(call, record_of(primary)),
        },
    }
}

/// The text of a result that holds a record.
pub open spec fn declaration_of(record: Result<RecordShapeView, ParseError>) -> Result<
    Seq<char>,
    ParseError,
> {
    match record {
        Ok(shape) => Ok(declaration_text(shape)),
        Err(e) => Err(e),
    }
}

/// The text of a result that holds records.
pub open spec fn declarations_of(records: Result<Seq<RecordShapeView>, ParseError>) -> Result<
    Seq<char>,
    ParseError,
> {
    match records {
        Ok(shapes) => Ok(declarations_text(shapes)),
        Err(e) => Err(e),
    }
}

/// The mathematical value of a result that holds records.
pub open spec fn records_view(records: Result<Vec<RecordShape>, ParseError>) -> Result<
    Seq<RecordShapeView>,
    ParseError,
> {
    match records {
        Ok(shapes) => Ok(shapes.deep_view()),
        Err(e) => Err(e),
    }
}

/// Takes the text of the primary declaration out of a call.
pub fn primary_text(call: &Vec<Token>) -> (text: Result<String, ParseError>)
    ensures
        result_view(text) == call_primary(call.deep_view()),
{
    if 0 < call.len() && call[0].is_group(Delimiter::Brace) {
        Ok(call[0].inner())
    } else {
        Err(ParseError { kind: ErrorKind::MalformedRecord, place: Place::Call, at: 0 })
    }
}

/// Reads the shadow specifications of a call.
pub fn parse_call_specs(call: &Vec<Token>) -> (specs: Result<Vec<ShadowSpec>, ParseError>)
    ensures
        match specs {
            Ok(found) => call_specs(call.deep_view()) == Ok::<_, ParseError>(found.deep_view()),
            Err(e) => call_specs(call.deep_view()) == Err::<Seq<ShadowSpecView>, _>(e),
        },
{
    if call.len() < 2 {
        return Err(ParseError { kind: ErrorKind::MalformedShadowSpec, place: Place::Call, at: call.len() });
    }
    if !call[1].is_punct(',') {
        return Err(ParseError { kind: ErrorKind::MalformedShadowSpec, place: Place::Call, at: 1 });
    }
    let list = copy_range(call, 2, call.len());
    parse_shadow_specs(&list)
}

/// The records that a call stands for, given the outcome of reading its
/// primary declaration.
pub fn expand_call(call: &Vec<Token>, primary: Result<RecordShape, ParseError>) -> (records: Result<
    Vec<RecordShape>,
    ParseError,
>)
    ensures
        records_view(records) == expansion_from(call.deep_view(), result_view(primary)),
{
    match primary_text(call) {
        Err(e) => Err(e),
        Ok(_) => match primary {
            Err(e) => Err(e),
            Ok(shape) => match parse_call_specs(call) {
                Err(e) => Err(e),
                Ok(specs) => Ok(expand(shape, &specs)),
            },
        },
    }
}

/// The records that the call `input` stands for: the primary record as
/// it was declared, then one shadow record for each specification, in
/// the order of the specifications. A malformed primary is reported as
/// [`parse_record`] reports it, a malformed specification at its token in
/// the list of the specifications, a call of another form at its token
/// in the call.
pub fn expansion(input: &str) -> (records: Result<Vec<RecordShape>, ParseError>)
    ensures
        records_view(records) == expansion_of(input@),
{
    let call = match lex(input) {
        Some(call) => call,
        None => {
            return Err(ParseError { kind: ErrorKind::MalformedRecord, place: Place::Call, at: 0 });
        },
    };
    let primary = match primary_text(&call) {
        Ok(text) => text,
        Err(e) => {
            return Err(e);
        },
    };
    expand_call(&call, parse_record(primary.as_str()))
}

/// Expands the call `input`, a primary declaration between braces and
/// one or more shadow specifications: the text of the primary
/// declaration and of one shadow declaration for each specification.
/// Nothing is written where any part is malformed.
pub fn metadata(input: &str) -> (output: Result<String, ParseError>)
    ensures
        result_view(output) == declarations_of(expansion_of(input@)),
{
    match expansion(input) {
        Ok(records) => Ok(emit_all(&records)),
        Err(e) => Err(e),
    }
}

/// Picks the shadow record out of the records of a call with a single
/// specification.
pub fn pick_shadow(call: &Vec<Token>, records: Result<Vec<RecordShape>, ParseError>) -> (shadow:
    Result<RecordShape, ParseError>)
    ensures
        result_view(shadow) == only_shadow(call.deep_view(), records_view(records)),
{
    match records {
        Err(e) => Err(e),
        Ok(mut records) => {
            if records.len() == 2 {
                let ghost all = records.deep_view();
                let shadow = records.remove(1);
                assert(shadow@ == all[1]);
                Ok(shadow)
            } else {
                Err(ParseError { kind: ErrorKind::MalformedShadowSpec, place: Place::Call, at: call.len() })
            }
        },
    }
}

/// Expands the call `input`, a primary declaration between braces and
/// exactly one shadow specification: the text of the shadow declaration
/// alone.
pub fn metadata_only(input: &str) -> (output: Result<String, ParseError>)
    ensures
        result_view(output) == declaration_of(shadow_of(input@)),
{
    let call = match lex(input) {
        Some(call) => call,
        None => {
            return Err(ParseError { kind: ErrorKind::MalformedRecord, place: Place::Call, at: 0 });
        },
    };
    match pick_shadow(&call, expansion(input)) {
        Ok(shadow) => Ok(emit(&shadow)),
        Err(e) => Err(e),
    }
}

/// The primary record of a call that holds nothing else, given the
/// outcome of reading its declaration.
pub fn pick_primary(call: &Vec<Token>, primary: Result<RecordShape, ParseError>) -> (record: Result<
    RecordShape,
    ParseError,
>)
    ensures
        result_view(record) == primary_from(call.deep_view(), result_view(primary)),
{
    match primary_text(call) {
        Err(e) => Err(e),
        Ok(_) => if call.len() != 1 {
            Err(ParseError { kind: ErrorKind::MalformedRecord, place: Place::Call, at: 1 })
        } else {
            primary
        },
    }
}

/// Writes the primary declaration that `input` holds between braces, as
/// it was declared.
pub fn put_struct(input: &str) -> (output: Result<String, ParseError>)
    ensures
        result_view(output) == declaration_of(primary_of(input@)),
{
    let call = match lex(input) {
        Some(call) => call,
        None => {
            return Err(ParseError { kind: ErrorKind::MalformedRecord, place: Place::Call, at: 0 });
        },
    };
    let primary = match primary_text(&call) {
        Ok(text) => text,
        Err(e) => {
            return Err(e);
        },
    };
    match pick_primary(&call, parse_record(primary.as_str())) {
        Ok(record) => Ok(emit(&record)),
        Err(e) => Err(e),
    }
}

/// The specifications of a call are the same with and without a comma
/// behind the last of them.
pub proof fn lemma_call_trailing_comma(call: Seq<TokenView>, comma: TokenView)
    requires
        comma.is_punct(','),
        call.len() >= 2,
    ensures
        call_specs(call.push(comma)) == call_specs(call),
{
    let longer = call.push(comma);
    let list = call.subrange(2, call.len() as int);
    assert(longer.subrange(2, longer.len() as int) =~= list.push(comma));
    lemma_shadow_specs_trailing_comma(list, comma);
}

/// The first record that a call stands for is its primary as it was
/// declared, whatever its specifications; each further record is the
/// shadow record of one specification.
pub proof fn lemma_call_keeps_primary(
    call: Seq<TokenView>,
    primary: Result<RecordShapeView, ParseError>,
)
    requires
        expansion_from(call, primary) is Ok,
    ensures
        primary is Ok,
        call_specs(call) is Ok,
        expansion_from(call, primary)->Ok_0.len() == call_specs(call)->Ok_0.len() + 1,
        expansion_from(call, primary)->Ok_0[0] == primary->Ok_0,
        forall|i: int|
            0 <= i < call_specs(call)->Ok_0.len() ==> #[trigger] expansion_from(
                call,
                primary,
            )->Ok_0[i + 1] == generated(primary->Ok_0, call_specs(call)->Ok_0[i]),
{
}

} // verus!
