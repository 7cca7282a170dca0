use metadata_macro::emit::emit;
use metadata_macro::record::parse_record;
use metadata_macro::shadow::{
    expand, generate, parse_shadow_spec, parse_shadow_specs, substitute, ShadowSpec,
};
use metadata_macro::shape::{
    copy_texts, Fields, NamedField, PositionalField, RecordKind, RecordShape, Visibility,
};
use metadata_macro::token::{tokenize, Token};
use metadata_macro::error::{ErrorKind, ParseError, Place};
use metadata_macro::{
    expand_call, expansion, metadata, parse_call_specs, pick_primary, pick_shadow, primary_text,
};

fn read(text: &str) -> Vec<Token> {
    tokenize(text).expect("the text is tokens")
}

fn list(items: &[&str]) -> Vec<String> {
    items.iter().map(|t| t.to_string()).collect()
}

fn request(attrs: &[&str], visibility: Visibility, name: &str, value_type: &str) -> ShadowSpec {
    ShadowSpec {
        attrs: list(attrs),
        visibility,
        name: name.to_string(),
        value_type: value_type.to_string(),
    }
}

fn wrong(at: usize) -> ParseError {
    ParseError { kind: ErrorKind::MalformedShadowSpec, place: Place::Specs, at }
}

fn at_call(kind: ErrorKind, at: usize) -> ParseError {
    ParseError { kind, place: Place::Call, at }
}

fn primary() -> RecordShape {
    RecordShape {
        attrs: list(&["derive (Debug)"]),
        visibility: Visibility::Public,
        name: "Primary".to_string(),
        generics: list(&["'a", "T"]),
        fields: Fields::Named(vec![
            NamedField {
                attrs: list(&["doc = \"first\""]),
                visibility: Visibility::Public,
                name: "first".to_string(),
                ty: "&'a T".to_string(),
            },
            NamedField {
                attrs: vec![],
                visibility: Visibility::Restricted("crate".to_string()),
                name: "second".to_string(),
                ty: "Vec < T >".to_string(),
            },
            NamedField {
                attrs: vec![],
                visibility: Visibility::Inherited,
                name: "third".to_string(),
                ty: "u8".to_string(),
            },
        ]),
    }
}

fn tuple() -> RecordShape {
    RecordShape {
        attrs: vec![],
        visibility: Visibility::Inherited,
        name: "Tuple".to_string(),
        generics: vec![],
        fields: Fields::Positional(vec![
            PositionalField { attrs: list(&["x"]), ty: "bool".to_string() },
            PositionalField { attrs: vec![], ty: "usize".to_string() },
        ]),
    }
}

#[test]
fn a_shadow_specification_has_a_name_and_a_type() {
    assert_eq!(
        parse_shadow_spec(&read("#[derive(Debug)] pub(crate) struct Desc: &'static str")),
        Ok(request(&["derive (Debug)"], Visibility::Restricted("crate".to_string()), "Desc", "&'static str"))
    );
    assert_eq!(parse_shadow_spec(&read("Desc: u8")), Ok(request(&[], Visibility::Inherited, "Desc", "u8")));
    assert_eq!(parse_shadow_spec(&read("pub Desc: u8")), Ok(request(&[], Visibility::Public, "Desc", "u8")));
    assert_eq!(parse_shadow_spec(&read("struct Desc:&str")), Ok(request(&[], Visibility::Inherited, "Desc", "& str")));
    assert_eq!(parse_shadow_spec(&read("")), Err(wrong(0)));
    assert_eq!(parse_shadow_spec(&read("struct")), Err(wrong(1)));
    assert_eq!(parse_shadow_spec(&read("struct : u8")), Err(wrong(1)));
    assert_eq!(parse_shadow_spec(&read("pub struct Desc")), Err(wrong(3)));
    assert_eq!(parse_shadow_spec(&read("struct Desc u8")), Err(wrong(2)));
    assert_eq!(parse_shadow_spec(&read("struct Desc:")), Err(wrong(3)));
    assert_eq!(parse_shadow_spec(&read("struct Desc: Vec<u8")), Err(wrong(0)));
}

#[test]
fn shadow_specifications_are_read_in_order() {
    let specs = parse_shadow_specs(&read("struct A: u8, pub struct B: Map<K, V>, C: ()")).unwrap();
    assert_eq!(
        specs,
        vec![
            request(&[], Visibility::Inherited, "A", "u8"),
            request(&[], Visibility::Public, "B", "Map < K , V >"),
            request(&[], Visibility::Inherited, "C", "()"),
        ]
    );
    assert_eq!(parse_shadow_specs(&read("")), Err(wrong(0)));
    assert_eq!(parse_shadow_specs(&read(",,")), Err(wrong(0)));
    assert_eq!(parse_shadow_specs(&read("struct A: u8, struct B")), Err(wrong(7)));
    assert_eq!(parse_shadow_specs(&read("struct A: u8, struct B: Vec<u8, struct C: u8")), Err(wrong(5)));
}

#[test]
fn a_shadow_record_has_as_many_fields_as_its_primary() {
    for record in [primary(), tuple()] {
        for ty in ["()", "&'static str", "Option < u8 >"] {
            let shadow = generate(&record, &request(&[], Visibility::Inherited, "Shadow", ty));
            match (&record.fields, &shadow.fields) {
                (Fields::Named(before), Fields::Named(after)) => assert_eq!(after.len(), before.len()),
                (Fields::Positional(before), Fields::Positional(after)) => {
                    assert_eq!(after.len(), before.len())
                }
                _ => panic!("the shadow record is of another kind"),
            }
        }
    }
}

#[test]
fn a_shadow_record_keeps_names_and_order() {
    let shadow = generate(&primary(), &request(&[], Visibility::Inherited, "Shadow", "()"));
    let Fields::Named(fields) = &shadow.fields else { panic!("the shadow record is positional") };
    let names: Vec<&str> = fields.iter().map(|f| f.name.as_str()).collect();
    assert_eq!(names, vec!["first", "second", "third"]);
    assert_eq!(fields[0].visibility, Visibility::Public);
    assert_eq!(fields[1].visibility, Visibility::Restricted("crate".to_string()));
    assert_eq!(fields[2].visibility, Visibility::Inherited);
    assert_eq!(fields[0].attrs, list(&["doc = \"first\""]));
    assert!(fields[1].attrs.is_empty());
}

#[test]
fn every_field_of_a_shadow_record_has_the_type_asked_for() {
    let shadow = generate(&primary(), &request(&[], Visibility::Inherited, "Shadow", "&'static str"));
    let Fields::Named(fields) = &shadow.fields else { panic!("the shadow record is positional") };
    assert!(fields.iter().all(|f| f.ty == "&'static str"));
    let shadow = generate(&tuple(), &request(&[], Visibility::Inherited, "Labels", "& str"));
    assert_eq!(
        shadow.fields,
        Fields::Positional(vec![
            PositionalField { attrs: list(&["x"]), ty: "& str".to_string() },
            PositionalField { attrs: vec![], ty: "& str".to_string() },
        ])
    );
    assert_eq!(
        substitute(&tuple().fields, &"u8".to_string()),
        Fields::Positional(vec![
            PositionalField { attrs: list(&["x"]), ty: "u8".to_string() },
            PositionalField { attrs: vec![], ty: "u8".to_string() },
        ])
    );
}

#[test]
fn a_shadow_record_takes_its_head_from_its_specification() {
    let spec = request(&["derive (Clone)", "repr (C)"], Visibility::Restricted("super".to_string()), "Shadow", "u8");
    let shadow = generate(&primary(), &spec);
    assert_eq!(shadow.attrs, list(&["derive (Clone)", "repr (C)"]));
    assert_eq!(shadow.visibility, Visibility::Restricted("super".to_string()));
    assert_eq!(shadow.name, "Shadow");
    assert_eq!(shadow.generics, list(&["'a", "T"]));
    assert_eq!(
        emit(&shadow),
        "#[derive (Clone)] #[repr (C)] pub(super) struct Shadow<'a, T> \
         { #[doc = \"first\"] pub first: u8, pub(crate) second: u8, third: u8 }"
    );
    assert_eq!(copy_texts(&list(&["a", "", "b c"])), list(&["a", "", "b c"]));
    assert_eq!(primary().kind(), RecordKind::Named);
    assert_eq!(shadow.kind(), RecordKind::Named);
    assert_eq!(shadow.fields.len(), 3);
    assert_eq!(tuple().fields.kind(), RecordKind::Positional);
    assert_eq!(tuple().fields.len(), 2);
    assert_eq!(Visibility::Restricted("super".to_string()).duplicate(), Visibility::Restricted("super".to_string()));
}

#[test]
fn the_primary_is_given_back_as_it_was() {
    let specs = vec![request(&[], Visibility::Inherited, "Shadow", "u8")];
    assert_eq!(expand(primary(), &specs)[0], primary());
    assert_eq!(expand(tuple(), &vec![]), vec![tuple()]);
    let text = "#[derive(Debug)] pub struct P<'a, T: 'a> { #[x] pub a: &'a T, b: Vec<(u8, u8)> }";
    let call = format!("{{ {} }}, struct S: ()", text);
    let records = expansion(&call).unwrap();
    assert_eq!(records[0], parse_record(text).unwrap());
    let output = metadata(&call).unwrap();
    let first_line = output.lines().next().unwrap();
    assert_eq!(parse_record(first_line), Ok(records[0].clone()));
    assert_eq!(emit(&parse_record(first_line).unwrap()), first_line);
}

#[test]
fn writing_and_reading_a_record_gives_the_record() {
    for text in [
        "struct A { }",
        "struct A();",
        "pub(crate) struct A<'a, T: Copy + 'a>(#[x] &'a T, fn(u8) -> T);",
        "#[a] #[b(c)] pub struct A { #[d] pub x: Option<Vec<u8>>, y: (u8, u8), pub(super) z: [u8; 4] }",
    ] {
        let shape = parse_record(text).unwrap();
        assert_eq!(parse_record(&emit(&shape)), Ok(shape));
    }
}

#[test]
fn specifications_do_not_bear_on_each_other() {
    let first = request(&["a"], Visibility::Public, "First", "u8");
    let second = request(&[], Visibility::Inherited, "Second", "()");
    let both = expand(primary(), &vec![first.clone(), second.clone()]);
    assert_eq!(both.len(), 3);
    assert_eq!(both[1], generate(&primary(), &first));
    assert_eq!(both[2], generate(&primary(), &second));
    assert_eq!(both[1], expand(primary(), &vec![first.clone()])[1]);
    assert_eq!(both[2], expand(primary(), &vec![second.clone()])[1]);
    assert_eq!(expand(primary(), &vec![second, first])[2], both[1]);
    let together = expansion("{ struct P(u8, u16); }, struct A: bool, struct B: ()").unwrap();
    let alone_a = expansion("{ struct P(u8, u16); }, struct A: bool").unwrap();
    let alone_b = expansion("{ struct P(u8, u16); }, struct B: ()").unwrap();
    assert_eq!(together[1], alone_a[1]);
    assert_eq!(together[2], alone_b[1]);
}

#[test]
fn a_comma_behind_the_last_field_changes_nothing() {
    let with = parse_record("struct P { a: u8, b: Vec<u8>, }").unwrap();
    let without = parse_record("struct P { a: u8, b: Vec<u8> }").unwrap();
    assert_eq!(with, without);
    let with = parse_record("struct P(u8, Vec<u8>,);").unwrap();
    let without = parse_record("struct P(u8, Vec<u8>);").unwrap();
    assert_eq!(with, without);
    assert_eq!(parse_record("struct P { a: Vec<u8, }"), parse_record("struct P { a: Vec<u8 }"));
    assert_eq!(parse_record("struct P { a, }"), parse_record("struct P { a }"));
}

#[test]
fn a_comma_behind_the_last_specification_changes_nothing() {
    let with = expansion("{ struct P { a: u8 } }, struct A: u8, struct B: (),").unwrap();
    let without = expansion("{ struct P { a: u8 } }, struct A: u8, struct B: ()").unwrap();
    assert_eq!(with, without);
    assert_eq!(with.len(), 3);
    assert_eq!(parse_shadow_specs(&read("A: u8,")), parse_shadow_specs(&read("A: u8")));
    assert_eq!(parse_shadow_specs(&read("A: V<u8,")), parse_shadow_specs(&read("A: V<u8")));
    assert_eq!(parse_shadow_specs(&read("A,")), parse_shadow_specs(&read("A")));
    assert_eq!(parse_shadow_specs(&read(",")), parse_shadow_specs(&read("")));
}

#[test]
fn a_call_is_its_primary_and_its_specifications() {
    let call = read("{ struct P(u8); }, struct A: (), B: u8");
    assert_eq!(primary_text(&call), Ok("struct P (u8) ;".to_string()));
    assert_eq!(
        parse_call_specs(&call),
        Ok(vec![
            request(&[], Visibility::Inherited, "A", "()"),
            request(&[], Visibility::Inherited, "B", "u8"),
        ])
    );
    let shape = parse_record("struct P(u8);").unwrap();
    let records = expand_call(&call, Ok(shape.clone())).unwrap();
    assert_eq!(records.len(), 3);
    assert_eq!(records[0], shape);
    let broken = ParseError { kind: ErrorKind::MalformedRecord, place: Place::Fields, at: 9 };
    assert_eq!(expand_call(&call, Err(broken)), Err(broken));
    assert_eq!(expand_call(&read("{ x } struct A: u8"), Err(broken)), Err(broken));
    assert_eq!(
        expand_call(&read("{ x } struct A: u8"), Ok(shape.clone())),
        Err(at_call(ErrorKind::MalformedShadowSpec, 1))
    );
    assert_eq!(
        expand_call(&read("(x), struct A: u8"), Ok(shape.clone())),
        Err(at_call(ErrorKind::MalformedRecord, 0))
    );
    assert_eq!(primary_text(&read("")), Err(at_call(ErrorKind::MalformedRecord, 0)));
    assert_eq!(parse_call_specs(&read("")), Err(at_call(ErrorKind::MalformedShadowSpec, 0)));
    assert_eq!(parse_call_specs(&read("{ }")), Err(at_call(ErrorKind::MalformedShadowSpec, 1)));
    assert_eq!(parse_call_specs(&read("{ } ;")), Err(at_call(ErrorKind::MalformedShadowSpec, 1)));
    assert_eq!(parse_call_specs(&read("{ } ,")), Err(wrong(0)));
    assert_eq!(parse_call_specs(&read("{ } , struct A: u8, : u8")), Err(wrong(5)));
}

#[test]
fn one_record_is_picked_out_of_a_call() {
    let call = read("{ struct P(u8); }, struct A: ()");
    let shape = parse_record("struct P(u8);").unwrap();
    let shadow = generate(&shape, &request(&[], Visibility::Inherited, "A", "()"));
    let too_many = at_call(ErrorKind::MalformedShadowSpec, 6);
    assert_eq!(pick_shadow(&call, Ok(vec![shape.clone(), shadow.clone()])), Ok(shadow.clone()));
    assert_eq!(pick_shadow(&call, Ok(vec![shape.clone()])), Err(too_many));
    assert_eq!(pick_shadow(&call, Ok(vec![shape.clone(), shadow.clone(), shadow])), Err(too_many));
    assert_eq!(pick_shadow(&call, Err(wrong(3))), Err(wrong(3)));
    let broken = ParseError { kind: ErrorKind::MalformedRecord, place: Place::Head, at: 9 };
    assert_eq!(pick_primary(&read("{ x }"), Ok(shape.clone())), Ok(shape.clone()));
    assert_eq!(pick_primary(&read("{ x }"), Err(broken)), Err(broken));
    assert_eq!(
        pick_primary(&read("{ x } y"), Ok(shape.clone())),
        Err(at_call(ErrorKind::MalformedRecord, 1))
    );
    assert_eq!(pick_primary(&read("x"), Ok(shape)), Err(at_call(ErrorKind::MalformedRecord, 0)));
}
