use prism::errors::ElementKind;
use prism::model::ModelType;
use prism::parse_error::{ParserError, Pattern, ValidationError};
use prism::normalisation::ModuleExpansionError;
use prism::processing::parse_model;
use prism::program_parser::{parse_unprocessed_model, UnprocessedModel};
use prism::rewards::RewardsTarget;
use prism::spans::{FullSpan, Span};
use prism::token::Token;

fn read_float(text: &str) -> u64 {
    text.parse::<f64>().unwrap().to_bits()
}

fn parse(source: &str) -> Result<UnprocessedModel, Vec<ParserError>> {
    parse_unprocessed_model(source, &read_float)
}

fn span_of(source: &str, text: &str) -> FullSpan {
    let start = source.find(text).unwrap();
    FullSpan::from_range(start..start + text.len())
}

const EXAMPLE: &str = r#"
mdp

const int N = 10;
const double p = 0.5;
label "goal" = x=N;

module main
    x: [0..N] init N / 2;
    [alpha] (x < N) -> (x'=x+1);
    [beta] (x >= 2 & x <= N-2) -> p: (x'=x+2) + (1-p): (x'=x-2);
endmodule"#;

#[test]
fn parse_documented_example() {
    let model = parse(EXAMPLE).unwrap();
    assert!(matches!(model.model_type, ModelType::Mdp(_)));
    assert_eq!(model.modules.modules.len(), 1);
    let main = &model.modules.modules[0];
    assert_eq!(main.name.name, "main");
    assert_eq!(main.commands.len(), 2);
    assert_eq!(main.commands[1].updates.len(), 2);
    let n = model.variable_manager.get_by_str("N").unwrap();
    assert_eq!(n.span.range(), Some(6..23));
    assert_eq!(&EXAMPLE[6..23], "const int N = 10;");
    assert!(n.is_constant);
    let x = model.variable_manager.get_by_str("x").unwrap();
    assert_eq!(x.scope, Some(0));
    assert!(!x.is_constant);
    assert_eq!(model.labels.labels.len(), 1);
    assert_eq!(model.labels.labels[0].name.name, "goal");
    assert_eq!(model.variable_manager.variables.len(), 3);
    assert_eq!(model.span.range(), Some(1..EXAMPLE.len()));
}

#[test]
fn parse_missing_brackets_before_command() {
    let source = "mdp\nmodule main\n    x: [0..10] init 0;\n    (x<10) -> (x'=x+1); // This command is missing `[]` at the beginning!\nendmodule main";
    let errors = parse(source).unwrap_err();
    assert_eq!(
        errors,
        vec![ParserError::ExpectedFound {
            span: FullSpan::from_range(43..44),
            expected: vec![
                Pattern::Label("command".to_string()),
                Pattern::Label("variable declaration".to_string()),
                Pattern::Token(Token::EndModule),
            ],
            found: Some(Token::LeftBracket),
            help: None,
        }]
    );
}

#[test]
fn parse_duplicate_name() {
    let source = "\nmdp\nconst int n = 10;\nmodule main\n    n: [0..15] init 3;\nendmodule\n";
    let errors = parse(source).unwrap_err();
    assert_eq!(
        errors,
        vec![ParserError::Validation(ValidationError::DuplicateElement {
            previous_occurrence: span_of(source, "const int n = 10;"),
            new_definition: span_of(source, "n: [0..15] init 3;"),
            kind: ElementKind::LocalVar,
        })]
    );
}

#[test]
fn parse_missing_model_type() {
    let errors = parse("const int a = 1;").unwrap_err();
    assert_eq!(errors, vec![ParserError::Validation(ValidationError::MissingModelType)]);
}

#[test]
fn parse_unsupported_model_type() {
    let errors = parse("pomdp\nmodule m endmodule").unwrap_err();
    assert_eq!(
        errors,
        vec![
            ParserError::Validation(ValidationError::MissingModelType),
            ParserError::Validation(ValidationError::UnsupportedModelType {
            model_type: "pomdp".to_string(),
            span: FullSpan::from_range(0..5),
            }),
        ]
    );
}

#[test]
fn parse_duplicate_model_type_and_init() {
    let source = "dtmc\nctmc\ninit x=1 endinit\ninit true endinit\nmodule m x: bool; endmodule";
    let errors = parse(source).unwrap_err();
    assert_eq!(
        errors,
        vec![
            ParserError::Validation(ValidationError::DuplicateModelType {
                first_occurrence: FullSpan::from_range(0..4),
                duplicate_occurrence: FullSpan::from_range(5..9),
            }),
            ParserError::Validation(ValidationError::DuplicateInitConstraint {
                first_occurrence: span_of(source, "init x=1 endinit"),
                first_occurrence_inner: span_of(source, "x=1"),
                duplicate_occurrence: span_of(source, "init true endinit"),
                duplicate_occurrence_inner: span_of(source, "true"),
            }),
        ]
    );
}

#[test]
fn parse_duplicates_of_every_kind_are_reported_in_order() {
    let source = "mdp\nformula f = 1;\nformula f = 2;\nlabel \"l\" = true;\nlabel \"l\" = false;\nglobal g: bool;\nglobal g: int;\nrewards \"r\" true : 1; endrewards\nrewards \"r\" endrewards\nmodule m endmodule\nmodule m endmodule\n";
    let errors = parse(source).unwrap_err();
    let kinds: Vec<ElementKind> = errors
        .iter()
        .map(|e| match e {
            ParserError::Validation(ValidationError::DuplicateElement { kind, .. }) => *kind,
            other => panic!("unexpected error {:?}", other),
        })
        .collect();
    assert_eq!(
        kinds,
        vec![
            ElementKind::Formula,
            ElementKind::Label,
            ElementKind::GlobalVar,
            ElementKind::Reward,
            ElementKind::Module
        ]
    );
}

#[test]
fn parse_renamed_module_and_rewards() {
    let source = "dtmc\nmodule a\n s: [0..2] init 0;\n [go] s<2 -> 0.5:(s'=s+1) + 0.5:true;\nendmodule\nmodule b = a [s=t, go=stop] endmodule\nrewards \"steps\"\n [go] true : 1;\n s=2 : 10;\n [] true : 2.5;\nendrewards\n";
    let model = parse(source).unwrap();
    assert_eq!(model.renamed_modules.len(), 1);
    let renamed = &model.renamed_modules[0];
    assert_eq!(renamed.old_name.name, "a");
    assert_eq!(renamed.new_name.name, "b");
    assert_eq!(renamed.rename_rules.rules.len(), 2);
    assert_eq!(renamed.rename_rules.rules[1].old_name.name, "go");
    assert_eq!(renamed.rename_rules.rules[1].new_name.name, "stop");
    assert_eq!(renamed.span, span_of(source, "module b = a [s=t, go=stop] endmodule"));
    assert_eq!(model.rewards.rewards.len(), 1);
    let rewards = &model.rewards.rewards[0];
    assert_eq!(rewards.name.as_ref().unwrap().name, "steps");
    assert_eq!(rewards.entries.len(), 3);
    assert!(matches!(&rewards.entries[0].target, RewardsTarget::Action(Some(a)) if a.name == "go"));
    assert!(matches!(rewards.entries[1].target, RewardsTarget::State));
    assert!(matches!(rewards.entries[2].target, RewardsTarget::Action(None)));
    let command = &model.modules.modules[0].commands[0];
    assert_eq!(command.updates.len(), 2);
    assert_eq!(command.updates[1].assignments.len(), 0);
}

#[test]
fn parse_unknown_element() {
    let errors = parse("mdp\n)").unwrap_err();
    assert_eq!(errors.len(), 1);
    match &errors[0] {
        ParserError::ExpectedFound { span, expected, found, .. } => {
            assert_eq!(*span, FullSpan::from_range(4..5));
            assert_eq!(expected.len(), 10);
            assert_eq!(expected[0], Pattern::Label("model type".to_string()));
            assert_eq!(expected[9], Pattern::EndOfInput);
            assert_eq!(*found, Some(Token::RightBracket));
        }
        other => panic!("unexpected error {:?}", other),
    }
}

#[test]
fn parse_error_after_duplicates_keeps_them() {
    let source = "mdp\nconst int a = 1;\nconst int a = 2;\nconst";
    let errors = parse(source).unwrap_err();
    assert_eq!(errors.len(), 2);
    assert!(matches!(
        errors[0],
        ParserError::Validation(ValidationError::DuplicateElement { kind: ElementKind::Const, .. })
    ));
    assert!(matches!(errors[1], ParserError::ExpectedFound { found: None, .. }));
}

#[test]
fn parse_lexer_error() {
    let errors = parse("mdp $").unwrap_err();
    assert_eq!(
        errors,
        vec![ParserError::UnexpectedCharacter { span: FullSpan::from_range(4..5), found: Some('$') }]
    );
}

#[test]
fn parse_reports_every_lexer_error() {
    let errors = parse("mdp $ module m x : [0..1] init 0; endmodule #").unwrap_err();
    assert_eq!(
        errors,
        vec![
            ParserError::UnexpectedCharacter { span: FullSpan::from_range(4..5), found: Some('$') },
            ParserError::UnexpectedCharacter { span: FullSpan::from_range(44..45), found: Some('#') },
        ]
    );
}

#[test]
fn process_documented_example() {
    let model = parse_model(EXAMPLE, &read_float).unwrap();
    assert_eq!(model.modules.modules.len(), 1);
    assert_eq!(model.modules.modules[0].name.name, "main");
    assert_eq!(model.variable_manager.variables.len(), 3);
    let command = &model.modules.modules[0].commands[0];
    assert_eq!(command.updates[0].assignments[0].target.index, 2);
}

#[test]
fn process_substitutes_formulas_and_expands_modules() {
    let source = "dtmc\nformula done = s=2;\nmodule a\n s: [0..2] init 0;\n [] !done -> (s'=s+1);\nendmodule\nmodule b = a [s=t] endmodule\n";
    let model = parse_model(source, &read_float).unwrap();
    assert_eq!(model.formulas.formulas.len(), 0);
    assert_eq!(model.renamed_modules.len(), 0);
    assert_eq!(model.modules.modules.len(), 2);
    assert_eq!(model.modules.modules[1].name.name, "b");
    let t = model.variable_manager.get_by_str("t").unwrap();
    assert_eq!(t.scope, Some(1));
    assert_eq!(model.modules.modules[1].commands[0].updates[0].assignments[0].target.index, 1);
}

#[test]
fn process_reports_cyclic_formulas() {
    let source = "mdp\nformula a = b + 1;\nformula b = a;\nmodule m x: bool; endmodule";
    let errors = parse_model(source, &read_float).unwrap_err();
    assert_eq!(errors.len(), 1);
    match &errors[0] {
        ParserError::Validation(ValidationError::CyclicFormulaDependency { cycle }) => {
            assert_eq!(cycle.entries.len(), 2);
        }
        other => panic!("unexpected error {:?}", other),
    }
}

#[test]
fn process_reports_unknown_variables() {
    let source = "mdp\nmodule m\n x: bool init y;\n [] z -> true;\nendmodule";
    let errors = parse_model(source, &read_float).unwrap_err();
    let names: Vec<String> = errors
        .iter()
        .map(|e| match e {
            ParserError::Validation(ValidationError::UnknownVariable { identifier }) => identifier.name.clone(),
            other => panic!("unexpected error {:?}", other),
        })
        .collect();
    assert_eq!(names, vec!["y".to_string(), "z".to_string()]);
}

#[test]
fn process_reports_missing_source_module() {
    let source = "mdp\nmodule b = a [] endmodule";
    let errors = parse_model(source, &read_float).unwrap_err();
    assert_eq!(errors.len(), 1);
    assert!(matches!(
        &errors[0],
        ParserError::Validation(ValidationError::ModuleExpansion {
            error: ModuleExpansionError::RenamingSourceDoesNotExist { .. }
        })
    ));
}

#[test]
fn duplicate_definitions_are_not_added() {
    let source = "mdp\nconst int a = 1;\nglobal a: bool;\nlabel \"l\" = true;\nlabel \"l\" = false;\nmodule m b: bool; endmodule\nmodule m c: bool; endmodule";
    let tokens = prism::lexer::raw_lex(source).unwrap();
    let (model, errors) = prism::program_parser::program_parser(&tokens, source.len(), &read_float);
    assert_eq!(errors.len(), 3);
    let names: Vec<&str> = model.variable_manager.variables.iter().map(|v| v.name.name.as_str()).collect();
    assert_eq!(names, vec!["a", "b"]);
    assert_eq!(model.labels.labels.len(), 1);
    assert_eq!(model.modules.modules.len(), 1);
}

#[test]
fn reserved_word_in_expression_gets_a_hint() {
    let source = "dtmc module m x : [0..1] init 0; [] x<max -> (x'=0); endmodule";
    let errors = parse(source).unwrap_err();
    assert_eq!(
        errors,
        vec![ParserError::ExpectedFound {
            span: span_of(source, "->"),
            expected: vec![Pattern::Token(Token::LeftBracket)],
            found: Some(Token::Arrow),
            help: Some("This error is often caused by using variables with reserved names".to_string()),
        }]
    );
}

#[test]
fn other_syntax_errors_get_no_hint() {
    let source = "dtmc module m x : [0..1] init 0; [] x<1 -> (x'=0) endmodule";
    let errors = parse(source).unwrap_err();
    assert_eq!(errors.len(), 1);
    assert!(matches!(errors[0], ParserError::ExpectedFound { help: None, .. }));
}
