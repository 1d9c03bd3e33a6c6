use prism::display::Displayable;
use prism::expression_parser::expression_parser;
use prism::expressions::Expression;
use prism::identifier::{Identifier, InvalidName};
use prism::parse_error::{ParserError, Pattern, ValidationError};
use prism::spans::{FullSpan, Span};
use prism::token::Token;

fn read_float(text: &str) -> u64 {
    text.parse::<f64>().unwrap().to_bits()
}

fn write_float(bits: u64) -> String {
    f64::from_bits(bits).to_string()
}

fn parse(source: &str) -> Expression<Identifier<FullSpan>, FullSpan> {
    expression_parser(source, &read_float).unwrap().0
}

fn round_trip(source: &str) -> String {
    parse(source).text(&(), &write_float)
}

#[test]
fn parse_precedence() {
    assert_eq!(round_trip("a + b * c"), "a+b*c");
    assert_eq!(round_trip("(a + b) * c"), "(a+b)*c");
    assert_eq!(round_trip("a - b - c"), "a-b-c");
    assert_eq!(round_trip("a - (b - c)"), "a-(b-c)");
    assert_eq!(round_trip("x < 3 & y >= 2 | !z"), "x<3&y>=2|!z");
    assert_eq!(round_trip("a => b <=> c"), "a=>b<=>c");
    assert_eq!(round_trip("c ? 1 : 2.5"), "c?1:2.5");
    assert_eq!(round_trip("--x"), "--x");
    assert_eq!(round_trip("!!x"), "!(!x)");
}

#[test]
fn parse_calls_and_labels() {
    assert_eq!(round_trip("max(a, b + 1)"), "max(a, b+1)");
    assert_eq!(round_trip("min()"), "min()");
    assert_eq!(round_trip("\"goal\" & T = 3"), "\"goal\"&T=3");
}

#[test]
fn parse_spans() {
    let (e, span) = expression_parser("  a + (b)", &read_float).unwrap();
    assert_eq!(span.range(), Some(2..9));
    assert_eq!(e.span().range(), Some(2..9));
    match e {
        Expression::Addition(lhs, rhs, _) => {
            assert_eq!(lhs.span().range(), Some(2..3));
            assert_eq!(rhs.span().range(), Some(7..8));
        }
        _ => panic!("expected an addition"),
    }
}

#[test]
fn parse_integer_value() {
    match parse("9223372036854775807") {
        Expression::Int(v, _) => assert_eq!(v, i64::MAX),
        _ => panic!("expected an integer"),
    }
}

#[test]
fn parse_missing_operand_is_refused() {
    assert_eq!(
        expression_parser("a +", &read_float).map(|_| ()),
        Err(ParserError::ExpectedFound {
            span: FullSpan::from_range(3..3),
            expected: vec![Pattern::Label("expression".to_string())],
            found: None,
            help: None,
        })
    );
}

#[test]
fn parse_unclosed_bracket_is_refused() {
    assert_eq!(
        expression_parser("(a", &read_float).map(|_| ()),
        Err(ParserError::ExpectedFound {
            span: FullSpan::from_range(2..2),
            expected: vec![Pattern::Token(Token::RightBracket)],
            found: None,
            help: None,
        })
    );
}

#[test]
fn parse_trailing_tokens_are_refused() {
    assert_eq!(
        expression_parser("a b", &read_float).map(|_| ()),
        Err(ParserError::ExpectedFound {
            span: FullSpan::from_range(2..3),
            expected: vec![Pattern::EndOfInput],
            found: Some(Token::Identifier("b".to_string())),
            help: None,
        })
    );
}

#[test]
fn parse_reserved_variable_is_refused() {
    assert_eq!(
        expression_parser("x + func", &read_float).map(|_| ()),
        Err(ParserError::Validation(ValidationError::InvalidIdentifierName {
            span: FullSpan::from_range(4..8),
            reason: InvalidName::Reserved { name: "func".to_string() },
        }))
    );
}

#[test]
fn parse_incomplete_ternary_is_refused() {
    assert_eq!(
        expression_parser("c ? a", &read_float).map(|_| ()),
        Err(ParserError::ExpectedFound {
            span: FullSpan::from_range(5..5),
            expected: vec![Pattern::Token(Token::Colon)],
            found: None,
            help: None,
        })
    );
}

#[test]
fn reserved_function_name_without_arguments() {
    let e = expression_parser("max + 1", &read_float).unwrap_err();
    assert_eq!(
        e,
        ParserError::ExpectedFound {
            span: FullSpan::from_range(4..5),
            expected: vec![Pattern::Token(Token::LeftBracket)],
            found: Some(Token::Plus),
            help: Some("This error is often caused by using variables with reserved names".to_string()),
        }
    );
}
