use nutype_derive::errors::ParseErrorKind;
use nutype_derive::models::{
    FieldDef, InnerType, NewtypeMeta, NumberType, RawNewtypeMeta, TypeBody, TypeDefinition,
};
use nutype_derive::parse::parse_type_name_and_inner_type;
use nutype_derive::string::models::{SpannedStringValidator, StringSanitizer, StringValidator};
use nutype_derive::string::parse::{parse_attributes, parse_validate_attrs};
use nutype_derive::string::validate::validate_string_meta;
use nutype_derive::tokens::{Delimiter, Span, Token};

fn ident(lo: usize, text: &str) -> Token {
    Token::ident(lo, lo + 1, text)
}

fn punct(lo: usize, ch: char) -> Token {
    Token::punct(lo, lo + 1, ch)
}

fn literal(lo: usize, text: &str) -> Token {
    Token::literal(lo, lo + 1, text)
}

fn spanned(lo: usize, item: StringValidator) -> SpannedStringValidator {
    SpannedStringValidator { span: Span { lo, hi: lo + 1 }, item }
}

#[test]
fn unsatisfiable_range_parses_but_fails_validation() {
    // max_len = 3, min_len = 10
    let tokens = vec![
        ident(0, "max_len"),
        punct(1, '='),
        literal(2, "3"),
        punct(3, ','),
        ident(4, "min_len"),
        punct(5, '='),
        literal(6, "10"),
    ];
    let validators = parse_validate_attrs(tokens).unwrap();
    assert_eq!(validators.len(), 2);
    let raw = RawNewtypeMeta { sanitizers: Vec::new(), validators };
    let err = validate_string_meta(raw).unwrap_err();
    assert_eq!(err.kind, ParseErrorKind::IncompatibleBounds);
    // flagged at the span of the bound parsed second
    assert_eq!(err.span, Span { lo: 4, hi: 5 });
}

#[test]
fn equal_bounds_are_satisfiable() {
    let raw = RawNewtypeMeta {
        sanitizers: Vec::new(),
        validators: vec![
            spanned(0, StringValidator::MinLen(5)),
            spanned(1, StringValidator::MaxLen(5)),
        ],
    };
    let meta = validate_string_meta(raw).unwrap();
    match meta {
        NewtypeMeta::TryFrom { sanitizers, validators } => {
            assert!(sanitizers.is_empty());
            assert_eq!(validators, vec![StringValidator::MinLen(5), StringValidator::MaxLen(5)]);
        },
        NewtypeMeta::From { .. } => panic!("expected a fallible model"),
    }
}

#[test]
fn duplicate_validator_is_flagged_at_second_occurrence() {
    let raw = RawNewtypeMeta {
        sanitizers: Vec::new(),
        validators: vec![
            spanned(0, StringValidator::Present),
            spanned(1, StringValidator::MaxLen(4)),
            spanned(2, StringValidator::Present),
        ],
    };
    let err = validate_string_meta(raw).unwrap_err();
    assert_eq!(err.kind, ParseErrorKind::DuplicateValidator);
    assert_eq!(err.span, Span { lo: 2, hi: 3 });
}

#[test]
fn duplicate_max_len_is_rejected() {
    let raw = RawNewtypeMeta {
        sanitizers: Vec::new(),
        validators: vec![
            spanned(0, StringValidator::MaxLen(4)),
            spanned(1, StringValidator::MaxLen(4)),
        ],
    };
    let err = validate_string_meta(raw).unwrap_err();
    assert_eq!(err.kind, ParseErrorKind::DuplicateValidator);
    assert_eq!(err.span, Span { lo: 1, hi: 2 });
}

#[test]
fn zero_validators_yield_infallible_model() {
    // sanitize(trim)
    let tokens = vec![
        ident(0, "sanitize"),
        Token::group(1, 2, Delimiter::Parenthesis, vec![ident(3, "trim")]),
    ];
    let meta = parse_attributes(tokens).unwrap();
    match meta {
        NewtypeMeta::From { sanitizers } => {
            assert_eq!(sanitizers, vec![StringSanitizer::Trim]);
        },
        NewtypeMeta::TryFrom { .. } => panic!("expected an infallible model"),
    }
}

#[test]
fn any_validator_yields_fallible_model() {
    // sanitize(trim) validate(max_len = 10, present)
    let validate_inner = vec![
        ident(4, "max_len"),
        punct(5, '='),
        literal(6, "10"),
        punct(7, ','),
        ident(8, "present"),
    ];
    let tokens = vec![
        ident(0, "sanitize"),
        Token::group(1, 2, Delimiter::Parenthesis, vec![ident(3, "trim")]),
        ident(9, "validate"),
        Token::group(10, 11, Delimiter::Parenthesis, validate_inner),
    ];
    let meta = parse_attributes(tokens).unwrap();
    match meta {
        NewtypeMeta::TryFrom { sanitizers, validators } => {
            assert_eq!(sanitizers, vec![StringSanitizer::Trim]);
            assert_eq!(
                validators,
                vec![StringValidator::MaxLen(10), StringValidator::Present]
            );
        },
        NewtypeMeta::From { .. } => panic!("expected a fallible model"),
    }
}

#[test]
fn full_pipeline_preserves_declaration_order() {
    // sanitize(uppercase, trim) validate(min_len = 1, max_len = 2, present)
    let sanitize_inner = vec![ident(3, "uppercase"), punct(4, ','), ident(5, "trim")];
    let validate_inner = vec![
        ident(8, "min_len"),
        punct(9, '='),
        literal(10, "1"),
        punct(11, ','),
        ident(12, "max_len"),
        punct(13, '='),
        literal(14, "2"),
        punct(15, ','),
        ident(16, "present"),
    ];
    let tokens = vec![
        ident(0, "sanitize"),
        Token::group(1, 2, Delimiter::Parenthesis, sanitize_inner),
        ident(6, "validate"),
        Token::group(7, 17, Delimiter::Parenthesis, validate_inner),
    ];
    let meta = parse_attributes(tokens).unwrap();
    match meta {
        NewtypeMeta::TryFrom { sanitizers, validators } => {
            assert_eq!(
                sanitizers,
                vec![StringSanitizer::Uppercase, StringSanitizer::Trim]
            );
            assert_eq!(
                validators,
                vec![
                    StringValidator::MinLen(1),
                    StringValidator::MaxLen(2),
                    StringValidator::Present,
                ]
            );
        },
        NewtypeMeta::From { .. } => panic!("expected a fallible model"),
    }
}

#[test]
fn empty_attribute_stream_yields_infallible_model() {
    let meta = parse_attributes(Vec::new()).unwrap();
    assert!(matches!(meta, NewtypeMeta::From { sanitizers } if sanitizers.is_empty()));
}

#[test]
fn parse_attributes_propagates_rule_errors() {
    // validate(bogus)
    let tokens = vec![
        ident(0, "validate"),
        Token::group(1, 2, Delimiter::Parenthesis, vec![ident(3, "bogus")]),
    ];
    let err = parse_attributes(tokens).unwrap_err();
    assert_eq!(err.kind, ParseErrorKind::UnknownValidator(String::from("bogus")));
    assert_eq!(err.span, Span { lo: 3, hi: 4 });
}

fn tuple_struct_def(name: &str, field_type: &str) -> TypeDefinition {
    TypeDefinition {
        span: Span { lo: 0, hi: 10 },
        name: String::from(name),
        body: TypeBody::TupleStruct {
            fields: vec![
                FieldDef { span: Span { lo: 2, hi: 3 }, type_path: Some(String::from(field_type)) },
            ],
        },
    }
}

#[test]
fn classifier_recognizes_text_and_numbers() {
    let t = parse_type_name_and_inner_type(tuple_struct_def("Email", "String")).unwrap();
    assert_eq!(t.name.as_str(), "Email");
    assert_eq!(t.inner_type, InnerType::String);

    let t = parse_type_name_and_inner_type(tuple_struct_def("Age", "u8")).unwrap();
    assert_eq!(t.inner_type, InnerType::Number(NumberType::U8));

    let t = parse_type_name_and_inner_type(tuple_struct_def("Count", "i32")).unwrap();
    assert_eq!(t.inner_type, InnerType::Number(NumberType::I32));

    let t = parse_type_name_and_inner_type(tuple_struct_def("Weight", "f64")).unwrap();
    assert_eq!(t.inner_type, InnerType::Number(NumberType::F64));

    let t = parse_type_name_and_inner_type(tuple_struct_def("Size", "usize")).unwrap();
    assert_eq!(t.inner_type, InnerType::Number(NumberType::Usize));
}

#[test]
fn classifier_rejects_unsupported_inner_type() {
    let err = parse_type_name_and_inner_type(tuple_struct_def("Wrapper", "Duration")).unwrap_err();
    assert_eq!(err.kind, ParseErrorKind::UnsupportedInnerType(String::from("Duration")));
    assert_eq!(err.span, Span { lo: 2, hi: 3 });
}

#[test]
fn classifier_rejects_non_tuple_struct() {
    let def = TypeDefinition {
        span: Span { lo: 0, hi: 10 },
        name: String::from("Named"),
        body: TypeBody::Other,
    };
    let err = parse_type_name_and_inner_type(def).unwrap_err();
    assert_eq!(err.kind, ParseErrorKind::NotTupleStruct);
    assert_eq!(err.span, Span { lo: 0, hi: 10 });
}

#[test]
fn classifier_rejects_two_field_struct() {
    let def = TypeDefinition {
        span: Span { lo: 0, hi: 10 },
        name: String::from("Pair"),
        body: TypeBody::TupleStruct {
            fields: vec![
                FieldDef { span: Span { lo: 2, hi: 3 }, type_path: Some(String::from("u8")) },
                FieldDef { span: Span { lo: 4, hi: 5 }, type_path: Some(String::from("u8")) },
            ],
        },
    };
    let err = parse_type_name_and_inner_type(def).unwrap_err();
    assert_eq!(err.kind, ParseErrorKind::NotTupleStruct);
}

#[test]
fn classifier_rejects_complex_field_type() {
    let def = TypeDefinition {
        span: Span { lo: 0, hi: 10 },
        name: String::from("Wrapper"),
        body: TypeBody::TupleStruct {
            fields: vec![FieldDef { span: Span { lo: 2, hi: 3 }, type_path: None }],
        },
    };
    let err = parse_type_name_and_inner_type(def).unwrap_err();
    assert_eq!(err.kind, ParseErrorKind::ExpectedSimpleType);
    assert_eq!(err.span, Span { lo: 2, hi: 3 });
}
