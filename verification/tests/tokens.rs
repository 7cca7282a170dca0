use metadata_macro::emit::{emit, emit_all, join};
use metadata_macro::error::{write_decimal, write_place, ErrorKind, ParseError, Place};
use metadata_macro::shape::{
    Fields, NamedField, PositionalField, RecordShape, Visibility,
};
use metadata_macro::split::{open_angles, split, Segment};
use metadata_macro::token::{copy_range, render, tokenize, write_group, Delimiter, Token};

fn ident(name: &str) -> Token {
    Token::Ident(name.to_string())
}

fn punct(ch: char) -> Token {
    Token::Punct(ch, false)
}

fn joint(ch: char) -> Token {
    Token::Punct(ch, true)
}

fn group(delimiter: Delimiter, inner: &str) -> Token {
    Token::Group(delimiter, inner.to_string())
}

fn starts(pieces: &[Segment]) -> Vec<usize> {
    pieces.iter().map(|piece| piece.start).collect()
}

fn lengths(pieces: &[Segment]) -> Vec<usize> {
    pieces.iter().map(|piece| piece.tokens.len()).collect()
}

#[test]
fn render_puts_a_space_between_tokens() {
    let tokens = vec![
        ident("fn"),
        group(Delimiter::Parenthesis, "A"),
        joint('-'),
        punct('>'),
        ident("B"),
    ];
    assert_eq!(render(&tokens, 0, 5), "fn (A) -> B");
    assert_eq!(render(&tokens, 2, 4), "->");
    assert_eq!(render(&tokens, 1, 2), "(A)");
    assert_eq!(render(&tokens, 3, 3), "");
    assert_eq!(render(&tokens, 0, 0), "");
}

#[test]
fn render_keeps_joint_punctuation_together() {
    let tokens = vec![joint('&'), joint('\''), ident("a"), ident("str")];
    assert_eq!(render(&tokens, 0, 4), "&'a str");
    let tokens = vec![ident("a"), joint(':'), punct(':'), ident("b")];
    assert_eq!(render(&tokens, 0, 4), "a :: b");
}

#[test]
fn groups_are_written_with_their_delimiters() {
    assert_eq!(write_group(Delimiter::Parenthesis, "a , b"), "(a , b)");
    assert_eq!(write_group(Delimiter::Parenthesis, ""), "()");
    assert_eq!(write_group(Delimiter::Bracket, "x"), "[x]");
    assert_eq!(write_group(Delimiter::Bracket, ""), "[]");
    assert_eq!(write_group(Delimiter::Brace, "x"), "{ x }");
    assert_eq!(write_group(Delimiter::Brace, ""), "{ }");
    assert_eq!(write_group(Delimiter::Invisible, "x"), "x");
}

#[test]
fn tokens_know_their_text_and_class() {
    assert_eq!(ident("a").text(), "a");
    assert_eq!(punct(',').text(), ",");
    assert_eq!(joint(':').text(), ":");
    assert_eq!(Token::Literal("\"s\"".to_string()).text(), "\"s\"");
    assert_eq!(group(Delimiter::Brace, "a").text(), "{ a }");
    assert!(ident("struct").is_ident("struct"));
    assert!(!ident("structs").is_ident("struct"));
    assert!(!punct(',').is_ident(","));
    assert!(ident("x").is_name());
    assert!(!Token::Literal("x".to_string()).is_name());
    assert!(punct(',').is_punct(','));
    assert!(joint(',').is_punct(','));
    assert!(!punct(';').is_punct(','));
    assert!(joint('-').is_joint());
    assert!(!punct('-').is_joint());
    assert!(!ident("a").is_joint());
    assert!(group(Delimiter::Brace, "").is_group(Delimiter::Brace));
    assert!(!group(Delimiter::Brace, "").is_group(Delimiter::Parenthesis));
    assert_eq!(ident("x").name(), "x");
    assert_eq!(punct('x').name(), "");
    assert_eq!(group(Delimiter::Bracket, "in side").inner(), "in side");
    assert_eq!(ident("x").inner(), "");
    assert_eq!(group(Delimiter::Bracket, "in side").duplicate(), group(Delimiter::Bracket, "in side"));
}

#[test]
fn copy_range_copies_what_lies_between() {
    let tokens = vec![ident("a"), punct(','), ident("b"), punct(','), ident("c")];
    assert_eq!(copy_range(&tokens, 1, 4), vec![punct(','), ident("b"), punct(',')]);
    assert_eq!(copy_range(&tokens, 0, 5), tokens);
    assert_eq!(copy_range(&tokens, 5, 5), vec![]);
}

#[test]
fn angle_brackets_are_counted() {
    assert_eq!(open_angles(&vec![]), 0);
    assert_eq!(open_angles(&vec![punct('<'), punct('>')]), 0);
    assert_eq!(open_angles(&vec![punct('>')]), 0);
    assert_eq!(open_angles(&vec![punct('>'), punct('<')]), 1);
    assert_eq!(open_angles(&vec![punct('<'), punct('<'), punct('>')]), 1);
    assert_eq!(open_angles(&vec![ident("Vec"), punct('<'), ident("Vec"), punct('<'), ident("u8"), joint('>'), punct('>')]), 0);
    assert_eq!(open_angles(&vec![punct('<'), joint('-'), punct('>')]), 1);
    assert_eq!(open_angles(&vec![punct('<'), punct('-'), punct('>')]), 0);
    assert_eq!(open_angles(&vec![punct('<'), joint('='), punct('>')]), 0);
}

#[test]
fn lists_are_cut_at_commas_outside_angle_brackets() {
    let tokens = vec![
        ident("a"),
        punct(':'),
        ident("Map"),
        punct('<'),
        ident("K"),
        punct(','),
        ident("V"),
        joint('>'),
        punct(','),
        ident("b"),
    ];
    let pieces = split(&tokens);
    assert_eq!(starts(&pieces), vec![0, 9]);
    assert_eq!(lengths(&pieces), vec![8, 1]);
    assert_eq!(pieces[0].tokens, copy_range(&tokens, 0, 8));
    assert_eq!(pieces[1].tokens, vec![ident("b")]);
}

#[test]
fn empty_pieces_are_kept() {
    let pieces = split(&vec![]);
    assert_eq!(starts(&pieces), vec![0]);
    assert_eq!(lengths(&pieces), vec![0]);
    let tokens = vec![ident("a"), punct(','), punct(','), ident("b"), punct(',')];
    let pieces = split(&tokens);
    assert_eq!(starts(&pieces), vec![0, 2, 3, 5]);
    assert_eq!(lengths(&pieces), vec![1, 0, 1, 0]);
}

#[test]
fn an_arrow_closes_no_angle_bracket() {
    let tokens = vec![
        ident("F"),
        punct('<'),
        ident("fn"),
        group(Delimiter::Parenthesis, ""),
        joint('-'),
        punct('>'),
        ident("u8"),
        punct(','),
        ident("X"),
        punct('>'),
    ];
    let pieces = split(&tokens);
    assert_eq!(starts(&pieces), vec![0]);
    assert_eq!(lengths(&pieces), vec![10]);
    let tokens = vec![ident("fn"), group(Delimiter::Parenthesis, ""), joint('-'), punct('>'), ident("u8"), punct(','), ident("X")];
    assert_eq!(starts(&split(&tokens)), vec![0, 6]);
}

#[test]
fn numbers_are_written_in_decimal() {
    assert_eq!(write_decimal(0), "0");
    assert_eq!(write_decimal(9), "9");
    assert_eq!(write_decimal(10), "10");
    assert_eq!(write_decimal(305), "305");
    assert_eq!(write_decimal(1234567890), "1234567890");
    assert_eq!(write_decimal(usize::MAX), usize::MAX.to_string());
}

#[test]
fn errors_have_messages() {
    let say = |kind: ErrorKind, place: Place, at: usize| ParseError { kind, place, at }.message();
    assert_eq!(
        say(ErrorKind::MalformedRecord, Place::Fields, 12),
        "malformed record declaration at item 12 of the fields"
    );
    assert_eq!(
        say(ErrorKind::MalformedRecord, Place::Head, 1),
        "malformed record declaration at item 1 of the declaration"
    );
    assert_eq!(
        say(ErrorKind::MalformedShadowSpec, Place::Specs, 0),
        "malformed shadow specification at item 0 of the specifications"
    );
    assert_eq!(
        say(ErrorKind::MalformedShadowSpec, Place::Call, 1),
        "malformed shadow specification at item 1 of the call"
    );
    assert_eq!(
        say(ErrorKind::MalformedAnnotation, Place::Arguments(3), 7),
        "malformed annotation at item 7 of the arguments of attribute 3"
    );
    assert_eq!(
        say(ErrorKind::MalformedAnnotation, Place::Attribute(10), 1),
        "malformed annotation at item 1 of attribute 10"
    );
    assert_eq!(
        say(ErrorKind::MissingFieldType, Place::Annotations, 100),
        "annotation gives no field type at item 100 of the annotations"
    );
    assert_eq!(write_place(Place::Arguments(42)), "the arguments of attribute 42");
}

#[test]
fn errors_are_moved_and_placed() {
    let e = ParseError { kind: ErrorKind::MalformedRecord, place: Place::Fields, at: 3 };
    assert_eq!(e.shift(4), ParseError { kind: ErrorKind::MalformedRecord, place: Place::Fields, at: 7 });
    assert_eq!(e.in_attribute(5), e);
    let e = ParseError { kind: ErrorKind::MalformedAnnotation, place: Place::Arguments(0), at: 3 };
    assert_eq!(
        e.in_attribute(5),
        ParseError { kind: ErrorKind::MalformedAnnotation, place: Place::Arguments(5), at: 3 }
    );
    let e = ParseError { kind: ErrorKind::MalformedAnnotation, place: Place::Attribute(0), at: 1 };
    assert_eq!(
        e.in_attribute(2),
        ParseError { kind: ErrorKind::MalformedAnnotation, place: Place::Attribute(2), at: 1 }
    );
}

#[test]
fn join_puts_the_separator_between_parts() {
    let parts = |texts: &[&str]| -> Vec<String> { texts.iter().map(|t| t.to_string()).collect() };
    assert_eq!(join(&parts(&["a", "b", "c"]), ", "), "a, b, c");
    assert_eq!(join(&parts(&["a"]), ", "), "a");
    assert_eq!(join(&parts(&[]), ", "), "");
    assert_eq!(join(&parts(&["", ""]), "-"), "-");
}

#[test]
fn a_named_record_is_written_between_braces() {
    let shape = RecordShape {
        attrs: vec!["derive (Debug)".to_string()],
        visibility: Visibility::Restricted("crate".to_string()),
        name: "S".to_string(),
        generics: vec!["'a".to_string(), "T : Copy".to_string()],
        fields: Fields::Named(vec![
            NamedField {
                attrs: vec!["serde (skip)".to_string(), "doc = \"x\"".to_string()],
                visibility: Visibility::Public,
                name: "x".to_string(),
                ty: "u8".to_string(),
            },
            NamedField {
                attrs: vec![],
                visibility: Visibility::Inherited,
                name: "y".to_string(),
                ty: "Vec < T >".to_string(),
            },
        ]),
    };
    assert_eq!(
        emit(&shape),
        "#[derive (Debug)] pub(crate) struct S<'a, T : Copy> \
         { #[serde (skip)] #[doc = \"x\"] pub x: u8, y: Vec < T > }"
    );
}

#[test]
fn a_positional_record_is_written_between_parentheses() {
    let shape = RecordShape {
        attrs: vec![],
        visibility: Visibility::Inherited,
        name: "P".to_string(),
        generics: vec![],
        fields: Fields::Positional(vec![
            PositionalField { attrs: vec!["a".to_string()], ty: "u8".to_string() },
            PositionalField { attrs: vec![], ty: "()".to_string() },
        ]),
    };
    assert_eq!(emit(&shape), "struct P(#[a] u8, ());");
    let public = RecordShape {
        attrs: vec![],
        visibility: Visibility::Public,
        name: "Q".to_string(),
        generics: vec!["T".to_string()],
        fields: Fields::Named(vec![]),
    };
    assert_eq!(emit(&public), "pub struct Q<T> { }");
    assert_eq!(emit_all(&vec![shape, public]), "struct P(#[a] u8, ());\npub struct Q<T> { }\n");
    assert_eq!(emit_all(&vec![]), "");
}

#[test]
fn a_text_is_tokenized_one_level_deep() {
    assert_eq!(
        tokenize("pub struct A<'a>(&'a [u8; 4], \"s\") -> x;"),
        Some(vec![
            ident("pub"),
            ident("struct"),
            ident("A"),
            joint('<'),
            joint('\''),
            ident("a"),
            punct('>'),
            group(Delimiter::Parenthesis, "&'a [u8 ; 4] , \"s\""),
            joint('-'),
            punct('>'),
            ident("x"),
            punct(';'),
        ])
    );
    assert_eq!(tokenize("{ a { b } } [ ] ( )"), Some(vec![
        group(Delimiter::Brace, "a { b }"),
        group(Delimiter::Bracket, ""),
        group(Delimiter::Parenthesis, ""),
    ]));
    assert_eq!(tokenize("/// doc\nx // gone\n1.5e3 'c' r#\"raw\"#"), Some(vec![
        punct('#'),
        group(Delimiter::Bracket, "doc = \" doc\""),
        ident("x"),
        Token::Literal("1.5e3".to_string()),
        Token::Literal("'c'".to_string()),
        Token::Literal("r#\"raw\"#".to_string()),
    ]));
    assert_eq!(tokenize(""), Some(vec![]));
    assert_eq!(tokenize("   \n "), Some(vec![]));
    assert_eq!(tokenize("( a"), None);
    assert_eq!(tokenize("a )"), None);
    assert_eq!(tokenize("( a ]"), None);
    assert_eq!(tokenize("\"open"), None);
}
