//! What a malformed input is reported as.

use vstd::prelude::*;

verus! {

/// The kinds of malformed input.
#[derive(Clone, Copy, Debug, PartialEq, Eq, Structural)]
pub enum ErrorKind {
    /// The primary declaration is no record, or a field lacks a part.
    MalformedRecord,
    /// A shadow specification lacks its name or its type.
    MalformedShadowSpec,
    /// An annotation has a wrong prefix, name, type or alias.
    MalformedAnnotation,
    /// An annotation names a shadow record and gives its fields no type.
    MissingFieldType,
}

/// The sequences that an error can count in. A group is one token of the
/// sequence that holds it; what it encloses is a sequence of its own.
#[derive(Clone, Copy, Debug, PartialEq, Eq, Structural)]
pub enum Place {
    /// The tokens of a call: the primary between braces, a comma, the
    /// shadow specifications.
    Call,
    /// The tokens of the shadow specifications of a call, behind its
    /// first comma.
    Specs,
    /// The tokens of the declaration of the primary.
    Head,
    /// The tokens of the field list of the primary.
    Fields,
    /// The tokens between the brackets of the attribute with this index
    /// among the `metadata` attributes of the primary.
    Attribute(usize),
    /// The tokens of the arguments of the attribute with this index
    /// among the `metadata` attributes of the primary.
    Arguments(usize),
    /// The annotations of the primary, over all its `metadata`
    /// attributes, in their order.
    Annotations,
}

/// A malformed input: what is wrong, the sequence that holds it, and the
/// index of the offending item in that sequence (its length, where the
/// sequence ended too early).
#[derive(Clone, Copy, Debug, PartialEq, Eq, Structural)]
pub struct ParseError {
    pub kind: ErrorKind,
    pub place: Place,
    pub at: usize,
}

/// The error of the given kind at item `at` of `place`.
pub open spec fn error_at(kind: ErrorKind, place: Place, at: int) -> ParseError {
    ParseError { kind, place, at: at as usize }
}

/// The place of an attribute or of its arguments, said of the attribute
/// with the index `attribute`; any other place as it is.
pub open spec fn place_in(place: Place, attribute: int) -> Place {
    match place {
        Place::Attribute(_) => Place::Attribute(attribute as usize),
        Place::Arguments(_) => Place::Arguments(attribute as usize),
        _ => place,
    }
}

/// The error `e`, said of the attribute with the index `attribute`.
pub open spec fn attributed(e: ParseError, attribute: int) -> ParseError {
    ParseError { kind: e.kind, place: place_in(e.place, attribute), at: e.at }
}

/// The mathematical value of a result whose value has one.
pub open spec fn result_view<T: View>(r: Result<T, ParseError>) -> Result<T::V, ParseError> {
    match r {
        Ok(value) => Ok(value@),
        Err(e) => Err(e),
    }
}

/// The error `e`, its position moved `by` tokens to the right.
pub open spec fn shifted(e: ParseError, by: int) -> ParseError {
    ParseError { kind: e.kind, place: e.place, at: (e.at + by) as usize }
}

/// The outcome of reading one piece of a list: nothing (the piece is
/// skipped), a value, or an error.
pub type Piece<T> = Option<Result<T, ParseError>>;

/// The values of the pieces in order, or the first error among them.
pub open spec fn collected<T>(pieces: Seq<Piece<T>>) -> Result<Seq<T>, ParseError>
    decreases pieces.len(),
{
    if pieces.len() == 0 {
        Ok(Seq::empty())
    } else {
        match collected(pieces.drop_last()) {
            Err(e) => Err(e),
            Ok(values) => match pieces.last() {
                None => Ok(values),
                Some(Ok(value)) => Ok(values.push(value)),
                Some(Err(e)) => Err(e),
            },
        }
    }
}

/// An error among the first `n` pieces is the error of the whole list.
pub proof fn lemma_collected_error_stays<T>(pieces: Seq<Piece<T>>, n: int)
    requires
        0 <= n <= pieces.len(),
        collected(pieces.take(n)) is Err,
    ensures
        collected(pieces) == collected(pieces.take(n)),
    decreases pieces.len() - n,
{
    if n == pieces.len() {
        assert(pieces.take(n) =~= pieces);
    } else {
        assert(pieces.take(n + 1).drop_last() =~= pieces.take(n));
        lemma_collected_error_stays(pieces, n + 1);
    }
}

impl ParseError {
    /// The error moved `by` tokens to the right.
    pub fn shift(self, by: usize) -> (e: ParseError)
        requires
            self.at + by <= usize::MAX,
        ensures
            e == shifted(self, by as int),
    {
        ParseError { kind: self.kind, place: self.place, at: self.at + by }
    }

    /// The error said of the attribute with the index `attribute`.
    pub fn in_attribute(self, attribute: usize) -> (e: ParseError)
        ensures
            e == attributed(self, attribute as int),
    {
        let place = match self.place {
            Place::Attribute(_) => Place::Attribute(attribute),
            Place::Arguments(_) => Place::Arguments(attribute),
            place => place,
        };
        ParseError { kind: self.kind, place, at: self.at }
    }
}

/// The decimal digit `d`.
pub open spec fn digit(d: nat) -> char {
    if d == 0 {
        '0'
    } else if d == 1 {
        '1'
    } else if d == 2 {
        '2'
    } else if d == 3 {
        '3'
    } else if d == 4 {
        '4'
    } else if d == 5 {
        '5'
    } else if d == 6 {
        '6'
    } else if d == 7 {
        '7'
    } else if d == 8 {
        '8'
    } else {
        '9'
    }
}

/// The number `n` in decimal digits.
pub open spec fn decimal(n: nat) -> Seq<char>
    decreases n,
{
    if n < 10 {
        seq![digit(n)]
    } else {
        decimal(n / 10).push(digit(n % 10))
    }
}

/// What an error of the given kind is called.
pub open spec fn kind_text(kind: ErrorKind) -> Seq<char> {
    match kind {
        ErrorKind::MalformedRecord => "malformed record declaration"@,
        ErrorKind::MalformedShadowSpec => "malformed shadow specification"@,
        ErrorKind::MalformedAnnotation => "malformed annotation"@,
        ErrorKind::MissingFieldType => "annotation gives no field type"@,
    }
}

/// What a place is called.
pub open spec fn place_text(place: Place) -> Seq<char> {
    match place {
        Place::Call => "the call"@,
        Place::Specs => "the specifications"@,
        Place::Head => "the declaration"@,
        Place::Fields => "the fields"@,
        Place::Attribute(i) => "attribute "@ + decimal(i as nat),
        Place::Arguments(i) => "the arguments of attribute "@ + decimal(i as nat),
        Place::Annotations => "the annotations"@,
    }
}

/// The message of an error: its kind, its position and its place.
pub open spec fn message_text(e: ParseError) -> Seq<char> {
    kind_text(e.kind) + " at item "@ + decimal(e.at as nat) + " of "@ + place_text(e.place)
}

/// Writes the decimal digit `d`.
pub fn write_digit(d: usize) -> (ch: char)
    requires
        d < 10,
    ensures
        ch == digit(d as nat),
{
    if d == 0 {
        '0'
    } else if d == 1 {
        '1'
    } else if d == 2 {
        '2'
    } else if d == 3 {
        '3'
    } else if d == 4 {
        '4'
    } else if d == 5 {
        '5'
    } else if d == 6 {
        '6'
    } else if d == 7 {
        '7'
    } else if d == 8 {
        '8'
    } else {
        '9'
    }
}

/// Writes `n` in decimal digits.
pub fn write_decimal(n: usize) -> (text: String)
    ensures
        text@ == decimal(n as nat),
    decreases n,
{
    if n < 10 {
        let mut text = String::new();
        text.push(write_digit(n));
        assert(text@ =~= seq![digit(n as nat)]);
        text
    } else {
        let mut text = write_decimal(n / 10);
        text.push(write_digit(n % 10));
        text
    }
}

/// Writes what a place is called.
pub fn write_place(place: Place) -> (text: String)
    ensures
        text@ == place_text(place),
{
    match place {
        Place::Call => "the call".to_owned(),
        Place::Specs => "the specifications".to_owned(),
        Place::Head => "the declaration".to_owned(),
        Place::Fields => "the fields".to_owned(),
        Place::Attribute(i) => {
            let mut text = "attribute ".to_owned();
            let index = write_decimal(i);
            text.append(index.as_str());
            text
        },
        Place::Arguments(i) => {
            let mut text = "the arguments of attribute ".to_owned();
            let index = write_decimal(i);
            text.append(index.as_str());
            text
        },
        Place::Annotations => "the annotations".to_owned(),
    }
}

impl ParseError {
    /// The message of the error: its kind, its position and its place.
    pub fn message(&self) -> (text: String)
        ensures
            text@ == message_text(*self),
    {
        let mut text = match self.kind {
            ErrorKind::MalformedRecord => "malformed record declaration".to_owned(),
            ErrorKind::MalformedShadowSpec => "malformed shadow specification".to_owned(),
            ErrorKind::MalformedAnnotation => "malformed annotation".to_owned(),
            ErrorKind::MissingFieldType => "annotation gives no field type".to_owned(),
        };
        let position = write_decimal(self.at);
        let place = write_place(self.place);
        text.append(" at item ");
        text.append(position.as_str());
        text.append(" of ");
        text.append(place.as_str());
        text
    }
}

} // verus!
