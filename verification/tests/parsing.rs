use nutype_derive::common::{parse_nutype_attributes, parse_value_as_number, split_on_commas};
use nutype_derive::errors::ParseErrorKind;
use nutype_derive::string::models::{
    SpannedStringSanitizer, StringSanitizer, StringValidator,
};
use nutype_derive::string::parse::{parse_sanitize_attrs, parse_validate_attrs};
use nutype_derive::tokens::{Delimiter, Span, Token};

fn ident(lo: usize, text: &str) -> Token {
    Token::ident(lo, lo + 1, text)
}

fn punct(lo: usize, ch: char) -> Token {
    Token::punct(lo, lo + 1, ch)
}

fn literal(lo: usize, text: &str) -> Token {
    Token::literal(lo, lo + 1, text)
}

/// `max_len = 13, min_len = 7, present`
fn validators_stream() -> Vec<Token> {
    vec![
        ident(0, "max_len"),
        punct(1, '='),
        literal(2, "13"),
        punct(3, ','),
        ident(4, "min_len"),
        punct(5, '='),
        literal(6, "7"),
        punct(7, ','),
        ident(8, "present"),
    ]
}

#[test]
fn test_validate_attrs() {
    let tokens = validators_stream();
    let validators = parse_validate_attrs(tokens).unwrap();
    let validators: Vec<StringValidator> = validators.into_iter().map(|v| v.item).collect();
    assert_eq!(
        validators,
        vec![
            StringValidator::MaxLen(13),
            StringValidator::MinLen(7),
            StringValidator::Present,
        ]
    );
}

#[test]
fn test_validate_attrs_with_errors() {
    // max_len = -1
    let tokens = vec![ident(0, "max_len"), punct(1, '='), punct(2, '-'), literal(3, "1")];
    assert!(parse_validate_attrs(tokens).is_err());

    // present = 3
    let tokens = vec![ident(0, "present"), punct(1, '='), literal(2, "3")];
    assert!(parse_validate_attrs(tokens).is_err());
}

#[test]
fn negative_argument_is_rejected_as_negative() {
    let tokens = vec![ident(0, "min_len"), punct(1, '='), punct(2, '-'), literal(3, "4")];
    let err = parse_validate_attrs(tokens).unwrap_err();
    assert_eq!(err.kind, ParseErrorKind::NegativeNumber);
    assert_eq!(err.span, Span { lo: 2, hi: 3 });
}

#[test]
fn unknown_validator_names_the_identifier() {
    let tokens = vec![ident(7, "bogus")];
    let err = parse_validate_attrs(tokens).unwrap_err();
    assert_eq!(err.kind, ParseErrorKind::UnknownValidator(String::from("bogus")));
    assert_eq!(err.span, Span { lo: 7, hi: 8 });
}

#[test]
fn missing_equals_after_length_rule() {
    let tokens = vec![ident(0, "max_len"), literal(1, "3")];
    let err = parse_validate_attrs(tokens).unwrap_err();
    assert_eq!(err.kind, ParseErrorKind::ExpectedEquals);
}

#[test]
fn missing_number_after_equals() {
    let tokens = vec![ident(0, "max_len"), punct(1, '=')];
    let err = parse_validate_attrs(tokens).unwrap_err();
    assert_eq!(err.kind, ParseErrorKind::ExpectedNumber);
}

#[test]
fn non_numeric_argument_is_rejected() {
    let tokens = vec![ident(0, "max_len"), punct(1, '='), ident(2, "ten")];
    let err = parse_validate_attrs(tokens).unwrap_err();
    assert_eq!(err.kind, ParseErrorKind::ExpectedNumber);
}

#[test]
fn huge_argument_is_rejected() {
    let tokens = vec![ident(0, "max_len"), punct(1, '='), literal(2, "18446744073709551616")];
    let err = parse_validate_attrs(tokens).unwrap_err();
    assert_eq!(err.kind, ParseErrorKind::NumberTooLarge);
}

#[test]
fn largest_argument_is_accepted() {
    let tokens = vec![ident(0, "max_len"), punct(1, '='), literal(2, "18446744073709551615")];
    let validators = parse_validate_attrs(tokens).unwrap();
    assert_eq!(validators.len(), 1);
    assert_eq!(validators[0].item, StringValidator::MaxLen(u64::MAX));
    assert_eq!(validators[0].span, Span { lo: 0, hi: 1 });
}

#[test]
fn trailing_separator_in_validators_is_tolerated() {
    let tokens = vec![ident(0, "max_len"), punct(1, '='), literal(2, "1"), punct(3, ',')];
    let validators = parse_validate_attrs(tokens).unwrap();
    let items: Vec<StringValidator> = validators.into_iter().map(|v| v.item).collect();
    assert_eq!(items, vec![StringValidator::MaxLen(1)]);
}

#[test]
fn doubled_separator_in_validators_is_rejected() {
    let tokens = vec![ident(0, "present"), punct(1, ','), punct(2, ',')];
    let err = parse_validate_attrs(tokens).unwrap_err();
    assert_eq!(err.kind, ParseErrorKind::ExpectedIdent);
    assert_eq!(err.span, Span { lo: 2, hi: 3 });
}

#[test]
fn bare_sanitizer_ignores_trailing_tokens() {
    // trim garbage
    let tokens = vec![ident(0, "trim"), ident(1, "garbage")];
    let sans = parse_sanitize_attrs(tokens).unwrap();
    assert_eq!(sans.len(), 1);
    assert_eq!(sans[0].item, StringSanitizer::Trim);
}

#[test]
fn sanitizer_run_must_start_with_identifier() {
    let tokens = vec![literal(0, "1")];
    let err = parse_sanitize_attrs(tokens).unwrap_err();
    assert_eq!(err.kind, ParseErrorKind::ExpectedIdent);
    assert_eq!(err.span, Span { lo: 0, hi: 1 });
}

#[test]
fn empty_validator_stream_yields_no_rules() {
    let validators = parse_validate_attrs(Vec::new()).unwrap();
    assert!(validators.is_empty());
}

#[test]
fn parse_value_as_number_reads_the_cursor() {
    let tokens = vec![ident(0, "max_len"), punct(1, '='), literal(2, "42")];
    let (value, next) = parse_value_as_number(&tokens, 1, Span { lo: 0, hi: 1 }).unwrap();
    assert_eq!(value, 42);
    assert_eq!(next, 3);
}

#[test]
fn sanitizers_in_declaration_order() {
    // trim, lowercase
    let tokens = vec![ident(0, "trim"), punct(1, ','), ident(2, "lowercase")];
    let sans = parse_sanitize_attrs(tokens).unwrap();
    let items: Vec<StringSanitizer> = sans.into_iter().map(|s| s.item).collect();
    assert_eq!(items, vec![StringSanitizer::Trim, StringSanitizer::Lowercase]);
}

#[test]
fn custom_sanitizer_payload_is_preserved() {
    // with = foo(1,2), trim
    let group_inner = vec![literal(4, "1"), punct(5, ','), literal(6, "2")];
    let tokens = vec![
        ident(0, "with"),
        punct(1, '='),
        ident(2, "foo"),
        Token::group(3, 7, Delimiter::Parenthesis, group_inner),
        punct(8, ','),
        ident(9, "trim"),
    ];
    let sans = parse_sanitize_attrs(tokens).unwrap();
    assert_eq!(sans.len(), 2);
    let expected_payload = vec![
        ident(2, "foo"),
        Token::group(
            3,
            7,
            Delimiter::Parenthesis,
            vec![literal(4, "1"), punct(5, ','), literal(6, "2")],
        ),
    ];
    assert_eq!(
        sans[0],
        SpannedStringSanitizer {
            span: Span { lo: 0, hi: 1 },
            item: StringSanitizer::With(expected_payload),
        }
    );
    assert_eq!(sans[1].item, StringSanitizer::Trim);
}

#[test]
fn uppercase_sanitizer_is_recognized() {
    let tokens = vec![ident(0, "uppercase")];
    let sans = parse_sanitize_attrs(tokens).unwrap();
    assert_eq!(sans.len(), 1);
    assert_eq!(sans[0].item, StringSanitizer::Uppercase);
}

#[test]
fn unknown_sanitizer_names_the_identifier() {
    let tokens = vec![ident(0, "trim"), punct(1, ','), ident(2, "shout")];
    let err = parse_sanitize_attrs(tokens).unwrap_err();
    assert_eq!(err.kind, ParseErrorKind::UnknownSanitizer(String::from("shout")));
    assert_eq!(err.span, Span { lo: 2, hi: 3 });
}

#[test]
fn sanitizer_with_missing_equals() {
    let tokens = vec![ident(0, "with"), ident(1, "foo")];
    let err = parse_sanitize_attrs(tokens).unwrap_err();
    assert_eq!(err.kind, ParseErrorKind::ExpectedEquals);
    assert_eq!(err.span, Span { lo: 0, hi: 2 });
}

#[test]
fn sanitizer_with_nothing_after_it() {
    let tokens = vec![ident(0, "with")];
    let err = parse_sanitize_attrs(tokens).unwrap_err();
    assert_eq!(err.kind, ParseErrorKind::ExpectedEquals);
    assert_eq!(err.span, Span { lo: 0, hi: 1 });
}

#[test]
fn empty_run_between_separators_is_rejected() {
    // trim,,lowercase
    let tokens = vec![ident(0, "trim"), punct(1, ','), punct(2, ','), ident(3, "lowercase")];
    let err = parse_sanitize_attrs(tokens).unwrap_err();
    assert_eq!(err.kind, ParseErrorKind::EmptyRule);
    assert_eq!(err.span, Span { lo: 2, hi: 3 });
}

#[test]
fn trailing_separator_is_rejected() {
    let tokens = vec![ident(0, "trim"), punct(1, ',')];
    let err = parse_sanitize_attrs(tokens).unwrap_err();
    assert_eq!(err.kind, ParseErrorKind::EmptyRule);
    assert_eq!(err.span, Span { lo: 1, hi: 2 });
}

#[test]
fn split_on_commas_keeps_runs() {
    let tokens = vec![ident(0, "a"), punct(1, ','), ident(2, "b"), ident(3, "c")];
    let runs = split_on_commas(tokens).unwrap();
    assert_eq!(runs, vec![vec![ident(0, "a")], vec![ident(2, "b"), ident(3, "c")]]);
}

#[test]
fn shell_finds_sections_in_any_order() {
    let sanitize_inner = vec![ident(3, "trim")];
    let validate_inner = vec![ident(6, "present")];
    let tokens = vec![
        ident(0, "validate"),
        Token::group(1, 2, Delimiter::Parenthesis, validate_inner),
        ident(4, "sanitize"),
        Token::group(5, 7, Delimiter::Parenthesis, sanitize_inner),
    ];
    let (san, val) = parse_nutype_attributes(tokens).unwrap();
    assert_eq!(san, vec![ident(3, "trim")]);
    assert_eq!(val, vec![ident(6, "present")]);
}

#[test]
fn shell_rejects_unknown_section() {
    let tokens = vec![ident(0, "sanitise"), Token::group(1, 2, Delimiter::Parenthesis, vec![])];
    let err = parse_nutype_attributes(tokens).unwrap_err();
    assert_eq!(err.kind, ParseErrorKind::UnknownAttribute(String::from("sanitise")));
    assert_eq!(err.span, Span { lo: 0, hi: 1 });
}

#[test]
fn shell_rejects_duplicate_section() {
    let tokens = vec![
        ident(0, "sanitize"),
        Token::group(1, 2, Delimiter::Parenthesis, vec![ident(3, "trim")]),
        ident(4, "sanitize"),
        Token::group(5, 6, Delimiter::Parenthesis, vec![]),
    ];
    let err = parse_nutype_attributes(tokens).unwrap_err();
    assert_eq!(err.kind, ParseErrorKind::DuplicateAttribute(String::from("sanitize")));
    assert_eq!(err.span, Span { lo: 4, hi: 5 });
}

#[test]
fn shell_rejects_section_without_group() {
    let tokens = vec![ident(0, "validate")];
    let err = parse_nutype_attributes(tokens).unwrap_err();
    assert_eq!(err.kind, ParseErrorKind::ExpectedGroup);
    assert_eq!(err.span, Span { lo: 0, hi: 1 });
}

#[test]
fn shell_rejects_non_identifier() {
    let tokens = vec![punct(0, '#')];
    let err = parse_nutype_attributes(tokens).unwrap_err();
    assert_eq!(err.kind, ParseErrorKind::ExpectedIdent);
    assert_eq!(err.span, Span { lo: 0, hi: 1 });
}
