use metadata_macro::error::{ErrorKind, ParseError, Place};
use metadata_macro::shape::{Fields, NamedField, PositionalField, RecordShape, Visibility};
use metadata_macro::{expansion, metadata, metadata_only, put_struct};

fn named(records: &[RecordShape], index: usize) -> &Vec<NamedField> {
    match &records[index].fields {
        Fields::Named(fields) => fields,
        Fields::Positional(_) => panic!("record {} is positional", index),
    }
}

fn positional(records: &[RecordShape], index: usize) -> &Vec<PositionalField> {
    match &records[index].fields {
        Fields::Positional(fields) => fields,
        Fields::Named(_) => panic!("record {} is named", index),
    }
}

fn named_layout(records: &[RecordShape], index: usize) -> Vec<(String, String)> {
    named(records, index).iter().map(|f| (f.name.clone(), f.ty.clone())).collect()
}

fn positional_layout(records: &[RecordShape], index: usize) -> Vec<String> {
    positional(records, index).iter().map(|f| f.ty.clone()).collect()
}

fn in_call(kind: ErrorKind, at: usize) -> ParseError {
    ParseError { kind, place: Place::Call, at }
}

fn in_specs(at: usize) -> ParseError {
    ParseError { kind: ErrorKind::MalformedShadowSpec, place: Place::Specs, at }
}

fn in_record(place: Place, at: usize) -> ParseError {
    ParseError { kind: ErrorKind::MalformedRecord, place, at }
}

fn pair(name: &str, ty: &str) -> (String, String) {
    (name.to_string(), ty.to_string())
}

fn items(output: &str) -> Vec<syn::ItemStruct> {
    let file = syn::parse_str::<syn::File>(output).expect("the output is Rust");
    file.items
        .into_iter()
        .map(|item| match item {
            syn::Item::Struct(item) => item,
            _ => panic!("the output holds something else than records"),
        })
        .collect()
}

#[test]
fn test_no_fields() {
    let input = r#"
        {
            #[derive(PartialEq, Debug)]
            struct NoFields {
            }
        },
        #[derive(PartialEq, Debug)] struct NoFieldsMetadata: (),
    "#;
    let records = expansion(input).unwrap();
    assert_eq!(records.len(), 2);
    assert_eq!(records[0].name, "NoFields");
    assert_eq!(records[0].fields, Fields::Named(vec![]));
    assert_eq!(records[1].name, "NoFieldsMetadata");
    assert_eq!(records[1].fields, Fields::Named(vec![]));
    assert_eq!(
        metadata(input).unwrap(),
        "#[derive (PartialEq , Debug)] struct NoFields { }\n\
         #[derive (PartialEq , Debug)] struct NoFieldsMetadata { }\n"
    );

    let input = r#"
        {
            #[derive(PartialEq, Debug)]
            struct NoFieldsTuple();
        },
        #[derive(PartialEq, Debug)] struct NoFieldsTupleMetadata: (),
    "#;
    let records = expansion(input).unwrap();
    assert_eq!(records.len(), 2);
    assert_eq!(records[0].name, "NoFieldsTuple");
    assert_eq!(records[0].fields, Fields::Positional(vec![]));
    assert_eq!(records[1].name, "NoFieldsTupleMetadata");
    assert_eq!(records[1].fields, Fields::Positional(vec![]));
    assert_eq!(
        metadata(input).unwrap(),
        "#[derive (PartialEq , Debug)] struct NoFieldsTuple();\n\
         #[derive (PartialEq , Debug)] struct NoFieldsTupleMetadata();\n"
    );
}

#[test]
fn test_multiple_metadata_structs() {
    let input = r#"
        {
            #[derive(PartialEq, Debug, Default)]
            struct MultipleMetadataStructs {
                field_a: bool,
                field_b: usize,
            }
        },
        #[derive(PartialEq, Debug, Default)] struct StringLiteralA: &'static str,
        #[derive(PartialEq, Debug, Default)] struct OptionUnit: Option<()>,
        #[derive(PartialEq, Debug, Default)] struct Unit: (),
        #[derive(PartialEq, Debug, Default)] struct StringLiteralB: &'static str,
    "#;
    let records = expansion(input).unwrap();
    assert_eq!(records.len(), 5);
    assert_eq!(records[0].name, "MultipleMetadataStructs");
    assert_eq!(named_layout(&records, 0), vec![pair("field_a", "bool"), pair("field_b", "usize")]);
    assert_eq!(records[1].name, "StringLiteralA");
    assert_eq!(
        named_layout(&records, 1),
        vec![pair("field_a", "&'static str"), pair("field_b", "&'static str")]
    );
    assert_eq!(records[2].name, "OptionUnit");
    assert_eq!(
        named_layout(&records, 2),
        vec![pair("field_a", "Option < () >"), pair("field_b", "Option < () >")]
    );
    assert_eq!(records[3].name, "Unit");
    assert_eq!(named_layout(&records, 3), vec![pair("field_a", "()"), pair("field_b", "()")]);
    assert_eq!(records[4].name, "StringLiteralB");
    assert_eq!(
        named_layout(&records, 4),
        vec![pair("field_a", "&'static str"), pair("field_b", "&'static str")]
    );
    for record in &records {
        assert_eq!(record.attrs, vec!["derive (PartialEq , Debug , Default)".to_string()]);
    }

    let input = r#"
        {
            #[derive(PartialEq, Debug, Default)]
            struct MultipleMetadataStructsTuple(bool, usize);
        },
        #[derive(PartialEq, Debug, Default)] struct StringLiteralTupleA: &'static str,
        #[derive(PartialEq, Debug, Default)] struct OptionUnitTuple: Option<()>,
        #[derive(PartialEq, Debug, Default)] struct UnitTuple: (),
        #[derive(PartialEq, Debug, Default)] struct StringLiteralTupleB: &'static str,
    "#;
    let records = expansion(input).unwrap();
    assert_eq!(records.len(), 5);
    assert_eq!(records[0].name, "MultipleMetadataStructsTuple");
    assert_eq!(positional_layout(&records, 0), vec!["bool", "usize"]);
    assert_eq!(records[1].name, "StringLiteralTupleA");
    assert_eq!(positional_layout(&records, 1), vec!["&'static str", "&'static str"]);
    assert_eq!(records[2].name, "OptionUnitTuple");
    assert_eq!(positional_layout(&records, 2), vec!["Option < () >", "Option < () >"]);
    assert_eq!(records[3].name, "UnitTuple");
    assert_eq!(positional_layout(&records, 3), vec!["()", "()"]);
    assert_eq!(records[4].name, "StringLiteralTupleB");
    assert_eq!(positional_layout(&records, 4), vec!["&'static str", "&'static str"]);
}

#[test]
fn test_keywords() {
    let input = r#"
        {
            pub(crate) struct StructVisibility {
                pub public_field: (),
                private_field: (),
                pub (crate) crate_field: (),
            }
        },
        pub struct PublicStruct: (),
        struct PrivateStruct: (),
        pub(crate) struct CrateStruct: (),
    "#;
    let records = expansion(input).unwrap();
    assert_eq!(records.len(), 4);
    let crate_wide = Visibility::Restricted("crate".to_string());
    assert_eq!(records[0].visibility, crate_wide);
    assert_eq!(records[1].visibility, Visibility::Public);
    assert_eq!(records[2].visibility, Visibility::Inherited);
    assert_eq!(records[3].visibility, crate_wide);
    for index in 0..4 {
        let fields = named(&records, index);
        assert_eq!(fields.len(), 3);
        assert_eq!(fields[0].visibility, Visibility::Public);
        assert_eq!(fields[1].visibility, Visibility::Inherited);
        assert_eq!(fields[2].visibility, crate_wide);
    }
    assert_eq!(items(&metadata(input).unwrap()).len(), 4);

    let input = r#"
        {
            pub(crate) struct StructVisibilityTuple();
        },
        pub struct PublicStructTuple: (),
        struct PrivateStructTuple: (),
        pub(crate) struct CrateStructTuple: (),
    "#;
    assert_eq!(
        metadata(input).unwrap(),
        "pub(crate) struct StructVisibilityTuple();\n\
         pub struct PublicStructTuple();\n\
         struct PrivateStructTuple();\n\
         pub(crate) struct CrateStructTuple();\n"
    );
}

#[test]
fn test_unusual_syntax() {
    let input = r#"
        {
            struct NoLeadingComma {
                spaced_tokens : ( ) ,
                no_leading_comma: ()
            }
        },
        struct NoLeadingCommaSpacedTokensMetadata : ( )
    "#;
    assert_eq!(
        metadata(input).unwrap(),
        "struct NoLeadingComma { spaced_tokens: (), no_leading_comma: () }\n\
         struct NoLeadingCommaSpacedTokensMetadata { spaced_tokens: (), no_leading_comma: () }\n"
    );
    let input = r#"
        {
            struct HasLeadingCommaTuple((),);
        },
        struct NoLeadingCommaSpacedTokensTupleMetadata : ( )
    "#;
    assert_eq!(
        metadata(input).unwrap(),
        "struct HasLeadingCommaTuple(());\n\
         struct NoLeadingCommaSpacedTokensTupleMetadata(());\n"
    );
}

#[test]
fn test_doc_comments() {
    let input = r#"
        {
            /// Doc comment.
            struct HasDocComment {
                /// Doc comment.
                has_doc_comment: (),
            }
        },
        /// Doc comment.
        struct HasDocCommentMetadata: (),
    "#;
    let records = expansion(input).unwrap();
    assert_eq!(records.len(), 2);
    let doc = vec!["doc = \" Doc comment.\"".to_string()];
    for index in 0..2 {
        assert_eq!(records[index].attrs, doc);
        assert_eq!(named(&records, index).len(), 1);
        assert_eq!(named(&records, index)[0].attrs, doc);
        assert_eq!(named(&records, index)[0].name, "has_doc_comment");
    }
    assert_eq!(items(&metadata(input).unwrap()).len(), 2);

    let input = r#"
        {
            /// Doc comment.
            struct HasDocCommentTuple(
                /// Doc comment.
                ()
            );
        },
        /// Doc comment.
        struct HasDocCommentTupleMetadata: (),
    "#;
    let records = expansion(input).unwrap();
    assert_eq!(records.len(), 2);
    for index in 0..2 {
        assert_eq!(records[index].attrs, doc);
        assert_eq!(positional(&records, index).len(), 1);
        assert_eq!(positional(&records, index)[0].attrs, doc);
        assert_eq!(positional(&records, index)[0].ty, "()");
    }
    assert_eq!(items(&metadata(input).unwrap()).len(), 2);
}

#[test]
fn test_generics_and_lifetimes() {
    let input = r#"
        {
            #[derive(Default, PartialEq, Debug)]
            struct Polymorpher<'a, 'b: 'static, T> {
                normal_field_a: bool,
                has_generics: T,
                has_lifetimes: Option<&'a ()>,
                has_both: Option<&'a T>,

                passes_generics: HasGenerics<T>,
                passes_lifetimes: HasLifetimes<'a>,
                passes_both: HasBoth<'a, T>,

                has_nested_lifetimes: &'b str,
                normal_field_b: usize,
            }
        },
        struct PolymorpherMetadata: (),
    "#;
    let records = expansion(input).unwrap();
    assert_eq!(records.len(), 2);
    assert_eq!(records[0].generics, vec!["'a", "'b : 'static", "T"]);
    assert_eq!(records[1].generics, records[0].generics);
    assert_eq!(
        named_layout(&records, 0),
        vec![
            pair("normal_field_a", "bool"),
            pair("has_generics", "T"),
            pair("has_lifetimes", "Option <&'a () >"),
            pair("has_both", "Option <&'a T >"),
            pair("passes_generics", "HasGenerics < T >"),
            pair("passes_lifetimes", "HasLifetimes <'a >"),
            pair("passes_both", "HasBoth <'a , T >"),
            pair("has_nested_lifetimes", "&'b str"),
            pair("normal_field_b", "usize"),
        ]
    );
    let names: Vec<String> = named(&records, 0).iter().map(|f| f.name.clone()).collect();
    let shadow_names: Vec<String> = named(&records, 1).iter().map(|f| f.name.clone()).collect();
    assert_eq!(shadow_names, names);
    assert!(named(&records, 1).iter().all(|f| f.ty == "()"));
    let parsed = items(&metadata(input).unwrap());
    assert_eq!(parsed.len(), 2);
    assert_eq!(parsed[0].generics.params.len(), 3);
    assert_eq!(parsed[0].fields.len(), 9);
    assert_eq!(parsed[1].fields.len(), 9);
}

#[test]
fn test_attributes_derive_clap() {
    let input = r#"
        {
            #[derive(Parser)]
            struct ClapParser {
                normal_field_a: bool,
                #[clap(long)]
                clap_parser_field: bool,
                normal_field_b: usize,
            }
        },
        struct ClapParserMetadata: (),
    "#;
    let records = expansion(input).unwrap();
    assert_eq!(records.len(), 2);
    assert_eq!(records[0].attrs, vec!["derive (Parser)"]);
    assert!(records[1].attrs.is_empty());
    for index in 0..2 {
        let fields = named(&records, index);
        assert_eq!(fields.len(), 3);
        assert!(fields[0].attrs.is_empty());
        assert_eq!(fields[1].attrs, vec!["clap (long)"]);
        assert!(fields[2].attrs.is_empty());
    }
    let input = r#"
        {
            struct HasLeadingCommaTuple((),);
        },
        struct NoLeadingCommaMetadataTuple: ()
    "#;
    assert_eq!(
        metadata(input).unwrap(),
        "struct HasLeadingCommaTuple(());\nstruct NoLeadingCommaMetadataTuple(());\n"
    );
}

#[test]
fn test_generic_type_parameters() {
    let input = r#"
        {
            struct HasGenericTypeParameteres<T> {
                no_leading_comma: T,
            }
        },
        struct NoLeadingCommaMetadata: ()
    "#;
    assert_eq!(
        metadata(input).unwrap(),
        "struct HasGenericTypeParameteres<T> { no_leading_comma: T }\n\
         struct NoLeadingCommaMetadata<T> { no_leading_comma: () }\n"
    );
}

#[test]
fn named_record_with_two_specifications() {
    let input = "{ struct Primary { field_a: bool, field_b: usize } }, StrDesc: &str, Unit: ()";
    assert_eq!(
        metadata(input).unwrap(),
        "struct Primary { field_a: bool, field_b: usize }\n\
         struct StrDesc { field_a: & str, field_b: & str }\n\
         struct Unit { field_a: (), field_b: () }\n"
    );
}

#[test]
fn positional_record_with_one_specification() {
    let input = "{ struct Primary(bool, usize); }, Labels: &str";
    assert_eq!(metadata_only(input).unwrap(), "struct Labels(& str, & str);");
    assert_eq!(
        metadata(input).unwrap(),
        "struct Primary(bool, usize);\nstruct Labels(& str, & str);\n"
    );
}

#[test]
fn records_without_fields_keep_their_kind() {
    assert_eq!(metadata_only("{ struct P {} }, struct S: u8").unwrap(), "struct S { }");
    assert_eq!(metadata_only("{ struct P(); }, struct S: u8").unwrap(), "struct S();");
}

#[test]
fn metadata_only_takes_one_specification() {
    let input = "{ struct P { a: u8 } }, struct S: u8, struct T: u8";
    assert_eq!(metadata_only(input), Err(in_call(ErrorKind::MalformedShadowSpec, 11)));
    assert_eq!(metadata_only("{ struct P { a: u8 } }, struct S: u8,").unwrap(), "struct S { a: u8 }");
}

#[test]
fn put_struct_writes_the_primary_as_declared() {
    assert_eq!(
        put_struct("{ #[derive(Clone)] pub struct P<'a, T: Copy> { pub a: &'a T, b: Vec<(u8, u8)>, } }")
            .unwrap(),
        "#[derive (Clone)] pub struct P<'a, T : Copy> { pub a: &'a T, b: Vec < (u8 , u8) > }"
    );
    assert_eq!(
        put_struct("{ struct P(u8); } struct Q;"),
        Err(in_call(ErrorKind::MalformedRecord, 1))
    );
    assert_eq!(put_struct("struct P(u8);"), Err(in_call(ErrorKind::MalformedRecord, 0)));
}

#[test]
fn a_malformed_call_gives_nothing() {
    assert_eq!(metadata("{ struct P { a: u8 }"), Err(in_call(ErrorKind::MalformedRecord, 0)));
    assert_eq!(metadata(""), Err(in_call(ErrorKind::MalformedRecord, 0)));
    assert_eq!(
        metadata("{ struct P { a: u8 } }"),
        Err(in_call(ErrorKind::MalformedShadowSpec, 1))
    );
    assert_eq!(
        metadata("{ struct P { a: u8 } } struct S: u8"),
        Err(in_call(ErrorKind::MalformedShadowSpec, 1))
    );
    assert_eq!(metadata("{ struct P { a: u8 } },"), Err(in_specs(0)));
    assert_eq!(metadata("{ struct P { a: u8 } }, struct S"), Err(in_specs(2)));
    assert_eq!(metadata("{ struct P { a: u8 } }, struct S: u8, struct : u8"), Err(in_specs(6)));
    assert_eq!(metadata("{ enum P { A } }, struct S: u8"), Err(in_record(Place::Head, 0)));
    assert_eq!(metadata("{ struct P { a } }, struct S: u8"), Err(in_record(Place::Fields, 1)));
    assert_eq!(metadata("{ struct P<T { } }, struct S: u8"), Err(in_record(Place::Head, 2)));
    assert_eq!(metadata("{ struct P { a: u8 } }, struct S:"), Err(in_specs(3)));
}
