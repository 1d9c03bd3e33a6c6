use prism::lexer::{raw_lex, LexError};
use prism::spans::{FullSpan, Span};
use prism::token::Token;

fn tokens(source: &str) -> Vec<(Token, (usize, usize))> {
    raw_lex(source)
        .unwrap()
        .into_iter()
        .map(|(t, s)| {
            let r = s.range().unwrap();
            (t, (r.start, r.end))
        })
        .collect()
}

fn ident(name: &str) -> Token {
    Token::Identifier(name.to_string())
}

#[test]
fn lex_empty_input_has_no_tokens() {
    assert_eq!(tokens(""), vec![]);
}

#[test]
fn lex_keywords_and_identifiers() {
    assert_eq!(
        tokens("mdp module main endmodule"),
        vec![
            (Token::Mdp, (0, 3)),
            (Token::Module, (4, 10)),
            (ident("main"), (11, 15)),
            (Token::EndModule, (16, 25)),
        ]
    );
}

#[test]
fn lex_operator_spellings() {
    assert_eq!(
        tokens("Pmax PMax Rmin max Max LRAmax T"),
        vec![
            (Token::PMax, (0, 4)),
            (Token::PMax, (5, 9)),
            (Token::RMin, (10, 14)),
            (Token::Max, (15, 18)),
            (Token::Max, (19, 22)),
            (Token::LRAMax, (23, 29)),
            (Token::T, (30, 31)),
        ]
    );
}

#[test]
fn lex_numbers() {
    assert_eq!(
        tokens("12 1.5 2.5e-3 1.0e05"),
        vec![
            (Token::Integer("12".to_string()), (0, 2)),
            (Token::Float("1.5".to_string()), (3, 6)),
            (Token::Float("2.5e-3".to_string()), (7, 13)),
            (Token::Float("1.0e05".to_string()), (14, 20)),
        ]
    );
}

#[test]
fn lex_leading_zeros_split_integers() {
    assert_eq!(
        tokens("007"),
        vec![
            (Token::Integer("0".to_string()), (0, 1)),
            (Token::Integer("0".to_string()), (1, 2)),
            (Token::Integer("7".to_string()), (2, 3)),
        ]
    );
}

#[test]
fn lex_exponent_needs_digits_after_zeros() {
    assert_eq!(
        tokens("1.0e0"),
        vec![(Token::Float("1.0".to_string()), (0, 3)), (ident("e0"), (3, 5))]
    );
}

#[test]
fn lex_operators_and_syntax() {
    assert_eq!(
        tokens("<=> <= < => -> - .. ' = !="),
        vec![
            (Token::IfAndOnlyIf, (0, 3)),
            (Token::LessOrEqual, (4, 6)),
            (Token::LessThan, (7, 8)),
            (Token::Implies, (9, 11)),
            (Token::Arrow, (12, 14)),
            (Token::Minus, (15, 16)),
            (Token::DotDot, (17, 19)),
            (Token::AssignedTo, (20, 23)),
            (Token::NotEqual, (24, 26)),
        ]
    );
}

#[test]
fn lex_comments_are_skipped() {
    assert_eq!(
        tokens("// head\na // tail\n  b//end"),
        vec![(ident("a"), (8, 9)), (ident("b"), (20, 21))]
    );
}

#[test]
fn lex_spans_count_bytes() {
    assert_eq!(
        tokens("a\u{a0}b"),
        vec![(ident("a"), (0, 1)), (ident("b"), (3, 4))]
    );
}

#[test]
fn lex_only_whitespace_is_refused_at_end() {
    assert_eq!(
        raw_lex("  // nothing"),
        Err(vec![LexError { span: FullSpan::from_range(12..12), found: None }])
    );
}

#[test]
fn lex_unknown_character_is_refused() {
    assert_eq!(
        raw_lex("x + é"),
        Err(vec![LexError { span: FullSpan::from_range(4..6), found: Some('é') }])
    );
}

#[test]
fn lex_lone_apostrophe_is_refused() {
    assert_eq!(
        raw_lex("'x"),
        Err(vec![LexError { span: FullSpan::from_range(0..1), found: Some('\'') }])
    );
}

#[test]
fn token_text_is_its_spelling() {
    assert_eq!(Token::AssignedTo.to_string(), "'=");
    assert_eq!(Token::LeftCurlyBracket.to_string(), "{");
    assert_eq!(Token::Float("0.5".to_string()).to_string(), "0.5");
    assert_eq!(Token::PMin.to_string(), "Pmin");
}

#[test]
fn token_spans_are_ordered() {
    let source = "mdp // commént\nmodule m x : [0..3]; endmodule";
    let tokens = raw_lex(source).unwrap();
    let mut previous_end = 0;
    for (_, span) in &tokens {
        let range = span.range().unwrap();
        assert!(range.start < range.end);
        assert!(previous_end <= range.start);
        assert!(range.end <= source.len());
        previous_end = range.end;
    }
    assert_eq!(tokens.len(), 12);
}

#[test]
fn lex_reports_each_stretch_of_unknown_characters() {
    assert_eq!(
        raw_lex("mdp $ x # y"),
        Err(vec![
            LexError { span: FullSpan::from_range(4..5), found: Some('$') },
            LexError { span: FullSpan::from_range(8..9), found: Some('#') },
        ])
    );
}

#[test]
fn lex_skips_a_stretch_of_unknown_characters_once() {
    assert_eq!(
        raw_lex("x $$# y"),
        Err(vec![LexError { span: FullSpan::from_range(2..3), found: Some('$') }])
    );
}

#[test]
fn lex_unknown_character_at_the_end_is_one_error() {
    assert_eq!(
        raw_lex("x $"),
        Err(vec![LexError { span: FullSpan::from_range(2..3), found: Some('$') }])
    );
}
