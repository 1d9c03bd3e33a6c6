use prism::errors::ErrorSource;
use prism::expressions::Expression;
use prism::outputs::{
    parse_model_and_prop, parse_model_and_props, parse_unprocessed_model_and_prop, parse_unprocessed_model_and_props,
    ErrorWithSource, ModelAndPropsResult,
};
use prism::parse_error::{ParserError, Pattern, ValidationError};
use prism::properties::{BoundOperator, NonDeterminismKind, PathFormula, Query, RewardFormula, StateFormula};
use prism::property_parser::parse_unprocessed_query;
use prism::spans::{FullSpan, Span};
use prism::variables::VariableReference;

fn read_float(text: &str) -> u64 {
    text.parse::<f64>().unwrap().to_bits()
}

const EXAMPLE: &str = r#"
mdp

const int N = 10;
const double p = 0.5;
label "goal" = x=N;

module main
    x: [0..N] init N / 2;
    [alpha] (x < N) -> (x'=x+1);
    [beta] (x >= 2 & x <= N-2) -> p: (x'=x+2) + (1-p): (x'=x-2);
endmodule"#;

fn reference(e: &Expression<VariableReference, FullSpan>) -> usize {
    match e {
        Expression::VarOrConst(r, _) => r.index,
        other => panic!("not a variable: {:?}", other),
    }
}

#[test]
fn parse_documented_queries() {
    let parsed = parse_model_and_props(EXAMPLE, &["Pmin=? [F \"goal\"]", "Pmax>0.7 [G x > 0]"], &read_float);
    assert!(parsed.model.is_ok());
    assert_eq!(parsed.properties.len(), 2);
    match parsed.properties[0].as_ref().unwrap() {
        Query::ProbabilityValue { non_determinism, path: PathFormula::Eventually { condition } } => {
            assert_eq!(*non_determinism, Some(NonDeterminismKind::Minimise));
            match &**condition {
                StateFormula::Expression(Expression::Equals(a, b, _)) => {
                    assert_eq!(reference(a), 2);
                    assert_eq!(reference(b), 0);
                }
                other => panic!("label not substituted: {:?}", other),
            }
        }
        other => panic!("unexpected query {:?}", other),
    }
    match parsed.properties[1].as_ref().unwrap() {
        Query::StateFormula(StateFormula::ProbabilityBound { non_determinism, bound, path }) => {
            assert_eq!(*non_determinism, Some(NonDeterminismKind::Maximise));
            assert_eq!(bound.operator, BoundOperator::GreaterThan);
            assert!(matches!(bound.value, Expression::Float(bits, _) if bits == 0.7f64.to_bits()));
            assert!(matches!(**path, PathFormula::Generally { .. }));
        }
        other => panic!("unexpected query {:?}", other),
    }
    let all = parsed.all_ok();
    assert!(all.is_ok());
}

#[test]
fn parse_query_kinds() {
    let q = parse_unprocessed_query("R{\"steps\"}max=? [F x=1]", &read_float).unwrap();
    match q {
        Query::RewardValue { non_determinism, name, reward: RewardFormula::Finally { .. } } => {
            assert_eq!(non_determinism, Some(NonDeterminismKind::Maximise));
            assert_eq!(name, Some("steps".to_string()));
        }
        other => panic!("unexpected query {:?}", other),
    }
    let q = parse_unprocessed_query("Rmin<=5 [C<=10]", &read_float).unwrap();
    match q {
        Query::RewardBound { non_determinism, name, bound, reward: RewardFormula::Cumulative { k } } => {
            assert_eq!(non_determinism, Some(NonDeterminismKind::Minimise));
            assert_eq!(name, None);
            assert_eq!(bound.operator, BoundOperator::LessOrEqual);
            assert!(matches!(k, Expression::Int(10, _)));
        }
        other => panic!("unexpected query {:?}", other),
    }
    let q = parse_unprocessed_query("R=? [I=3]", &read_float).unwrap();
    assert!(matches!(q, Query::RewardValue { non_determinism: None, name: None, reward: RewardFormula::Instantaneous { .. } }));
    let q = parse_unprocessed_query("Tmax=? [F done]", &read_float).unwrap();
    assert!(matches!(q, Query::TimeValue { non_determinism: Some(NonDeterminismKind::Maximise), .. }));
    let q = parse_unprocessed_query("T=? [LRA]", &read_float).unwrap();
    assert!(matches!(q, Query::TimeValue { non_determinism: None, reward: RewardFormula::LongRunAverage }));
    let q = parse_unprocessed_query("Tmin>2 [F a]", &read_float).unwrap();
    assert!(matches!(q, Query::TimeBound { non_determinism: Some(NonDeterminismKind::Minimise), .. }));
    let q = parse_unprocessed_query("LRAmax>=0.5 F a", &read_float).unwrap();
    assert!(matches!(q, Query::StateFormula(StateFormula::LongRunAverage { .. })));
    // The word `U` is read as a name, so an until formula cannot be written.
    let e = parse_unprocessed_query("P=? [a U b]", &read_float).unwrap_err();
    let e = single(e);
    assert!(matches!(e, ParserError::ExpectedFound { ref expected, .. } if expected == &vec![Pattern::Token(prism::token::Token::Until)]));
    let q = parse_unprocessed_query("P<0.1 [F<=3 a]", &read_float).unwrap();
    assert!(matches!(
        q,
        Query::StateFormula(StateFormula::ProbabilityBound { path, .. }) if matches!(*path, PathFormula::BoundedEventually { .. })
    ));
    let q = parse_unprocessed_query("x > 3 & y", &read_float).unwrap();
    assert!(matches!(q, Query::StateFormula(StateFormula::Expression(Expression::Conjunction(..)))));
}

#[test]
fn parse_query_errors() {
    let e = parse_unprocessed_query("P=? [F a", &read_float).unwrap_err();
    let e = single(e);
    match e {
        ParserError::ExpectedFound { span, expected, found, .. } => {
            assert_eq!(span, FullSpan::from_range(8..8));
            assert!(expected.contains(&Pattern::Token(prism::token::Token::RightSqBracket)));
            assert_eq!(found, None);
        }
        other => panic!("unexpected error {:?}", other),
    }
    let e = parse_unprocessed_query("P=? [F a] b", &read_float).unwrap_err();
    let e = single(e);
    assert!(matches!(e, ParserError::ExpectedFound { ref expected, .. } if expected == &vec![Pattern::EndOfInput]));
    let e = parse_unprocessed_query("R [F a]", &read_float).unwrap_err();
    let e = single(e);
    assert!(matches!(e, ParserError::ExpectedFound { .. }));
}

#[test]
fn process_unknown_variable_in_query() {
    let parsed = parse_model_and_prop(EXAMPLE, "P=? [F y=1]", &read_float);
    assert!(parsed.model.is_ok());
    let errors = parsed.property.unwrap_err();
    assert_eq!(errors.len(), 1);
    assert!(matches!(&errors[0], ParserError::Validation(ValidationError::UnknownVariable { identifier }) if identifier.name == "y"));
}

#[test]
fn process_queries_of_a_broken_model() {
    let parsed = parse_model_and_props("mdp\nmodule m x: bool init y; endmodule", &["P=? [F x]", "P=? [F"], &read_float);
    assert!(parsed.model.is_err());
    assert_eq!(parsed.properties[0].as_ref().unwrap_err().len(), 0);
    assert_eq!(parsed.properties[1].as_ref().unwrap_err().len(), 1);
    let errors = parsed.all_ok().err().unwrap();
    assert_eq!(errors.len(), 2);
    assert_eq!(errors[0].source, ErrorSource::Model);
    assert_eq!(errors[1].source, ErrorSource::Property { index: 1 });
}

#[test]
fn substitute_formulas_in_query() {
    let source = "dtmc\nformula done = s=2;\nmodule a s: [0..2] init 0; [] s<2 -> (s'=s+1); endmodule";
    let parsed = parse_model_and_prop(source, "P=? [F done]", &read_float);
    let property = parsed.property.unwrap();
    match property {
        Query::ProbabilityValue { path: PathFormula::Eventually { condition }, .. } => {
            assert!(matches!(*condition, StateFormula::Expression(Expression::Equals(..))));
        }
        other => panic!("unexpected query {:?}", other),
    }
}

#[test]
fn unprocessed_results_stand_alone() {
    let parsed = parse_unprocessed_model_and_props("mdp $", &["P=? [F a]"], &read_float);
    assert!(parsed.model.is_err());
    assert!(parsed.properties[0].is_ok());
    let single = parse_unprocessed_model_and_prop(EXAMPLE, "P>=1 [G !\"goal\"]", &read_float);
    assert!(single.model.is_ok());
    assert!(single.property.is_ok());
    let combined = single.all_ok();
    assert!(combined.is_ok());
}

#[test]
fn all_ok_collects_errors_with_their_sources() {
    let result: ModelAndPropsResult<u8, u8> = ModelAndPropsResult {
        model: Err(vec![ParserError::Validation(ValidationError::MissingModelType)]),
        properties: vec![Ok(1), Err(vec![ParserError::Validation(ValidationError::MissingModelType)])],
    };
    let errors = result.all_ok().err().unwrap();
    assert_eq!(
        errors,
        vec![
            ErrorWithSource::model(ParserError::Validation(ValidationError::MissingModelType)),
            ErrorWithSource::property(ParserError::Validation(ValidationError::MissingModelType), 1),
        ]
    );
    let fine: ModelAndPropsResult<u8, u8> = ModelAndPropsResult { model: Ok(7), properties: vec![Ok(1), Ok(2)] };
    let both = fine.all_ok().ok().unwrap();
    assert_eq!(both.model, 7);
    assert_eq!(both.properties, vec![1, 2]);
}

fn single(mut errors: Vec<ParserError>) -> ParserError {
    assert_eq!(errors.len(), 1);
    errors.remove(0)
}

#[test]
fn query_reports_every_lexer_error() {
    let errors = parse_unprocessed_query("P=? [F $a] #", &read_float).unwrap_err();
    assert_eq!(
        errors,
        vec![
            ParserError::UnexpectedCharacter { span: FullSpan::from_range(7..8), found: Some('$') },
            ParserError::UnexpectedCharacter { span: FullSpan::from_range(11..12), found: Some('#') },
        ]
    );
}
