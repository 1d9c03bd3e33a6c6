use prism::attribute_parser::{attribute_parser, attributes_parser};
use prism::attributes::{Attribute, Attributes};
use prism::errors::ElementKind;
use prism::identifier::{Identifier, InvalidName};
use prism::parse_error::{ParserError, Pattern, ValidationError};
use prism::spans::{FullSpan, Span};
use prism::token::Token;
use std::ops::Range;

fn span(range: Range<usize>) -> FullSpan {
    FullSpan::from_range(range)
}

fn flag(key: &str, range: Range<usize>) -> (Attribute<FullSpan>, FullSpan) {
    (
        Attribute::flag_spanned(Identifier::new(key).unwrap(), span(range.clone())),
        span(range),
    )
}

fn key_value(
    key: &str,
    value: &str,
    range: Range<usize>,
    value_range: Range<usize>,
) -> (Attribute<FullSpan>, FullSpan) {
    (
        Attribute::key_value_spanned(
            Identifier::new(key).unwrap(),
            value.to_string(),
            span(range.clone()),
            span(value_range),
        ),
        span(range),
    )
}

fn attr_flag(key: &str, range: Range<usize>) -> Attribute<FullSpan> {
    Attribute::flag_spanned(
        Identifier::new_spanned(key, span(range.clone())).unwrap(),
        span(range),
    )
}

fn attr_value(
    key: &str,
    value: &str,
    key_range: Range<usize>,
    value_range: Range<usize>,
) -> Attribute<FullSpan> {
    let whole = key_range.start..value_range.end;
    Attribute::key_value_spanned(
        Identifier::new_spanned(key, span(key_range)).unwrap(),
        value.to_string(),
        span(whole),
        span(value_range),
    )
}

fn block(attributes: Vec<Attribute<FullSpan>>, range: Range<usize>) -> (Attributes<FullSpan>, FullSpan) {
    (Attributes::with_attributes(attributes).unwrap(), span(range))
}

#[test]
fn attribute_key() {
    assert_eq!(attribute_parser("key"), Ok(flag("key", 0..3)));
}

#[test]
fn attribute_key_leading_number() {
    assert_eq!(
        attribute_parser("3valued"),
        Err(ParserError::ExpectedFound {
            span: span(0..1),
            expected: vec![Pattern::Label("identifier".to_string())],
            found: Some(Token::Integer("3".to_string())),
            help: None,
        })
    );
}

#[test]
fn attribute_key_value() {
    assert_eq!(attribute_parser("key=value"), Ok(key_value("key", "value", 0..9, 4..9)));
}

#[test]
fn attribute_key_value_empty() {
    assert_eq!(attribute_parser("key="), Ok(key_value("key", "", 0..4, 4..4)));
}

#[test]
fn attribute_key_value_leading_whitespace() {
    assert_eq!(attribute_parser("key=   value"), Ok(key_value("key", "value", 0..12, 7..12)));
}

#[test]
fn attribute_key_value_trailing_whitespace() {
    assert_eq!(attribute_parser("key=value   "), Ok(key_value("key", "value", 0..9, 4..9)));
}

#[test]
fn attribute_key_value_integer() {
    assert_eq!(attribute_parser("key=3"), Ok(key_value("key", "3", 0..5, 4..5)));
}

#[test]
fn attribute_key_value_function() {
    assert_eq!(attribute_parser("key=max(3)"), Ok(key_value("key", "max(3)", 0..10, 4..10)));
}

#[test]
fn attribute_key_value_merge_with_space() {
    assert_eq!(attribute_parser("key=asdf jkl"), Ok(key_value("key", "asdf jkl", 0..12, 4..12)));
}

#[test]
fn attribute_key_value_merge_without_space() {
    assert_eq!(attribute_parser("key=asdf-jkl"), Ok(key_value("key", "asdf-jkl", 0..12, 4..12)));
}

#[test]
fn attribute_key_value_merge_with_double_space() {
    assert_eq!(
        attribute_parser("key=asdf  jkl"),
        Ok(key_value("key", "asdf  jkl", 0..13, 4..13))
    );
}

#[test]
fn attribute_key_value_merging_complex() {
    let input = r#"key=a b+c d e "asdf" (wer e = ==    ; init mdp ?"#;
    assert_eq!(
        attribute_parser(input),
        Ok(key_value(
            "key",
            r#"a b+c d e "asdf" (wer e = ==    ; init mdp ?"#,
            0..48,
            4..48
        ))
    );
}

#[test]
fn attributes_none() {
    assert_eq!(attributes_parser(""), Ok(block(vec![], 0..0)));
}

#[test]
fn attributes_empty() {
    assert_eq!(attributes_parser("{}"), Ok(block(vec![], 0..2)));
}

#[test]
fn attributes_empty_space() {
    assert_eq!(attributes_parser("{   }"), Ok(block(vec![], 0..5)));
}

#[test]
fn attributes_single_key() {
    assert_eq!(attributes_parser("{key}"), Ok(block(vec![attr_flag("key", 1..4)], 0..5)));
}

#[test]
fn attributes_single_key_value() {
    assert_eq!(
        attributes_parser("{key=value}"),
        Ok(block(vec![attr_value("key", "value", 1..4, 5..10)], 0..11))
    );
}

#[test]
fn attributes_single_key_value_complex() {
    assert_eq!(
        attributes_parser("{key=a b  c+d e f}"),
        Ok(block(vec![attr_value("key", "a b  c+d e f", 1..4, 5..17)], 0..18))
    );
}

#[test]
fn attributes_single_key_value_complex_spaces() {
    assert_eq!(
        attributes_parser("{  key  =    a b  c+d e f    }"),
        Ok(block(vec![attr_value("key", "a b  c+d e f", 3..6, 13..25)], 0..30))
    );
}

#[test]
fn attributes_mixed_keys_and_key_values() {
    assert_eq!(
        attributes_parser("{asdf, key=value, jkl}"),
        Ok(block(
            vec![
                attr_flag("asdf", 1..5),
                attr_value("key", "value", 7..10, 11..16),
                attr_flag("jkl", 18..21)
            ],
            0..22
        ))
    );
}

#[test]
fn attributes_mixed_keys_and_key_values_complex() {
    let input = r#"{ asdf    , qwe=3+4  +5, key=value, jkl, test=x=y, e=  5     }"#;
    assert_eq!(
        attributes_parser(input),
        Ok(block(
            vec![
                attr_flag("asdf", 2..6),
                attr_value("qwe", "3+4  +5", 12..15, 16..23),
                attr_value("key", "value", 25..28, 29..34),
                attr_flag("jkl", 36..39),
                attr_value("test", "x=y", 41..45, 46..49),
                attr_value("e", "5", 51..52, 55..56)
            ],
            0..62
        ))
    );
}

#[test]
fn attributes_duplicate_key_is_refused() {
    assert_eq!(
        attributes_parser("{a, b=1, a}"),
        Err(ParserError::Validation(ValidationError::DuplicateElement {
            previous_occurrence: span(1..2),
            new_definition: span(9..10),
            kind: ElementKind::Attribute,
        }))
    );
}

#[test]
fn attributes_reserved_key_is_refused() {
    assert_eq!(
        attributes_parser("{func}"),
        Err(ParserError::Validation(ValidationError::InvalidIdentifierName {
            span: span(1..5),
            reason: InvalidName::Reserved { name: "func".to_string() },
        }))
    );
}

#[test]
fn attributes_missing_closing_bracket() {
    assert_eq!(
        attributes_parser("{a"),
        Err(ParserError::ExpectedFound {
            span: span(2..2),
            expected: vec![
                Pattern::Token(Token::Equal),
                Pattern::Token(Token::Comma),
                Pattern::Token(Token::RightCurlyBracket)
            ],
            found: None,
            help: None,
        })
    );
}

#[test]
fn attributes_trailing_comma_is_refused() {
    assert_eq!(
        attributes_parser("{a,}"),
        Err(ParserError::ExpectedFound {
            span: span(3..4),
            expected: vec![Pattern::Label("identifier".to_string())],
            found: Some(Token::RightCurlyBracket),
            help: None,
        })
    );
}

#[test]
fn attributes_without_block_are_refused() {
    assert_eq!(
        attributes_parser("a"),
        Err(ParserError::ExpectedFound {
            span: span(0..1),
            expected: vec![Pattern::Token(Token::LeftCurlyBracket), Pattern::EndOfInput],
            found: Some(Token::Identifier("a".to_string())),
            help: None,
        })
    );
}

#[test]
fn attributes_followed_by_more_tokens_are_refused() {
    assert_eq!(
        attributes_parser("{a} b"),
        Err(ParserError::ExpectedFound {
            span: span(4..5),
            expected: vec![Pattern::EndOfInput],
            found: Some(Token::Identifier("b".to_string())),
            help: None,
        })
    );
}

#[test]
fn attribute_empty_value_inside_block_is_empty_at_next_token() {
    assert_eq!(
        attributes_parser("{k=}"),
        Ok(block(vec![attr_value("k", "", 1..2, 3..3)], 0..4))
    );
}

#[test]
fn attribute_time_operator_is_a_key() {
    assert_eq!(attribute_parser("T"), Ok(flag("T", 0..1)));
}

#[test]
fn attribute_flag_followed_by_token_is_refused() {
    assert_eq!(
        attribute_parser("a b"),
        Err(ParserError::ExpectedFound {
            span: span(2..3),
            expected: vec![Pattern::Token(Token::Equal), Pattern::EndOfInput],
            found: Some(Token::Identifier("b".to_string())),
            help: None,
        })
    );
}

#[test]
fn attribute_lookup_after_parsing() {
    let (attributes, _) = attributes_parser("{flag, k=v w}").unwrap();
    assert!(attributes.is_flag_set("flag"));
    assert!(!attributes.is_flag_set("k"));
    assert_eq!(attributes.value("k").map(|v| v.value.clone()), Some("v w".to_string()));
    assert!(attributes.get("missing").is_none());
}

#[test]
fn attribute_unexpected_character_is_refused() {
    assert_eq!(
        attributes_parser("{a=$}"),
        Err(ParserError::UnexpectedCharacter { span: span(3..4), found: Some('$') })
    );
}

#[test]
fn attributes_hold_each_successful_addition_once() {
    let mut attributes: Attributes<FullSpan> = Attributes::new();
    let mut accepted = 0;
    for key in ["a", "b", "a", "c", "b"] {
        if attributes.add(Attribute::flag(Identifier::new(key).unwrap())).is_ok() {
            accepted += 1;
        }
    }
    assert_eq!(accepted, 3);
    let all = attributes.iter();
    assert_eq!(all.len(), 3);
    for a in all {
        assert_eq!(attributes.get(&a.key.name), Some(a));
    }
}
