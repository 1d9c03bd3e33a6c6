use prism::character_to_line::CharacterToLineMap;
use prism::command::{Assignment, Command, Update};
use prism::display::Displayable;
use prism::expressions::Expression;
use prism::formulas::{Formula, FormulaManager};
use prism::identifier::{Identifier, InvalidName};
use prism::labels::{Label, LabelManager};
use prism::model::{Model, ModelType};
use prism::module::{Module, RenameRule, RenameRules, RenamedModule};
use prism::normalisation::ModuleExpansionError;
use prism::spans::{FullSpan, Span};
use prism::variables::{VariableInfo, VariableRange};

type Id = Identifier<FullSpan>;
type Expr = Expression<Id, FullSpan>;
type NamedModel = Model<Id, FullSpan, Expr, Id>;

fn floats(bits: u64) -> String {
    f64::from_bits(bits).to_string()
}

fn id(name: &str) -> Id {
    Identifier::new(name).unwrap()
}

fn var(name: &str) -> Expr {
    Expression::var_or_const(id(name))
}

fn num(v: i64) -> Expr {
    Expression::int_literal(v)
}

fn text(e: &Expr) -> String {
    e.text(&(), &floats)
}

fn increment(name: &str, guard: Expr) -> Command<Id, FullSpan, Expr, Id> {
    Command::with_updates(
        None,
        guard,
        vec![Update::with_assignments(num(1), vec![Assignment::new(id(name), var(name).plus(num(1)))])],
    )
}

#[test]
fn identifier_rules() {
    assert_eq!(Identifier::<FullSpan>::new("").unwrap_err(), InvalidName::Empty);
    assert_eq!(
        Identifier::<FullSpan>::new("3x").unwrap_err(),
        InvalidName::StartsWithNumber { character: '3' }
    );
    assert_eq!(
        Identifier::<FullSpan>::new("a-b").unwrap_err(),
        InvalidName::InvalidCharacter { location: 1, character: '-' }
    );
    assert_eq!(
        Identifier::<FullSpan>::new("module").unwrap_err(),
        InvalidName::Reserved { name: "module".to_string() }
    );
    assert!(Identifier::<FullSpan>::new_potentially_reserved("min").is_ok());
    assert_eq!(Identifier::<FullSpan>::new("x_1").unwrap().name, "x_1");
}

#[test]
fn span_join_covers_both() {
    let a = FullSpan::from_range(3..7);
    let b = FullSpan::from_range(5..12);
    assert_eq!(FullSpan::join(&a, &b).range(), Some(3..12));
    assert_eq!(FullSpan::join(&b, &a).range(), Some(3..12));
    assert_eq!(FullSpan::join(&a, &FullSpan::empty()).range(), None);
}

#[test]
fn character_to_line_documented_example() {
    let source = "mdp\nmodule main\n    // Here dragons abound\nendmodule\n";
    let map = CharacterToLineMap::from_str(source);
    assert_eq!(map.get_lines(4..52), 2..5);
    assert_eq!(map.get_line(0), 1);
    assert_eq!(map.get_line(3), 1);
    assert_eq!(map.get_line(4), 2);
}

#[test]
fn character_to_line_is_monotone() {
    let map = CharacterToLineMap::from_str("a\nbb\n\nccc");
    let lines: Vec<usize> = (0..10).map(|i| map.get_line(i)).collect();
    assert_eq!(lines, vec![1, 1, 2, 2, 2, 3, 4, 4, 4, 4]);
}

#[test]
fn formula_ordering_puts_dependencies_first() {
    let mut formulas: FormulaManager<FullSpan, Expr> = FormulaManager::new();
    formulas.add_formula(Formula::new(id("f"), var("g").plus(num(1)))).unwrap();
    formulas.add_formula(Formula::new(id("g"), var("h").times(num(2)))).unwrap();
    formulas.add_formula(Formula::new(id("h"), num(3))).unwrap();
    let order = formulas.get_formula_replacement_ordering().unwrap();
    assert_eq!(order, vec![2, 1, 0]);
}

#[test]
fn formula_ordering_documented_example() {
    let mut formulas: FormulaManager<FullSpan, Expr> = FormulaManager::new();
    formulas
        .add_formula(Formula::new(id("a"), num(123).divide_by(num(7))))
        .unwrap();
    formulas.add_formula(Formula::new(id("b"), var("a").divide_by(var("c")))).unwrap();
    formulas.add_formula(Formula::new(id("c"), var("a").times(num(2)))).unwrap();
    let order = formulas.get_formula_replacement_ordering().unwrap();
    assert_eq!(order, vec![0, 2, 1]);
}

#[test]
fn formula_cycle_is_reported() {
    let mut formulas: FormulaManager<FullSpan, Expr> = FormulaManager::new();
    formulas.add_formula(Formula::new(id("f"), var("g"))).unwrap();
    formulas.add_formula(Formula::new(id("g"), var("f").plus(num(1)))).unwrap();
    formulas.add_formula(Formula::new(id("h"), num(3))).unwrap();
    let cycle = formulas.get_formula_replacement_ordering().unwrap_err();
    let mut names: Vec<String> = cycle.entries.iter().map(|e| e.formula_name.name.clone()).collect();
    names.sort();
    assert_eq!(names, vec!["f".to_string(), "g".to_string()]);
}

#[test]
fn duplicate_formula_is_refused() {
    let mut formulas: FormulaManager<FullSpan, Expr> = FormulaManager::new();
    formulas.add_formula(Formula::new(id("f"), num(1))).unwrap();
    assert!(formulas.add_formula(Formula::new(id("f"), num(2))).is_err());
}

#[test]
fn substituting_formulas_removes_them_from_expressions() {
    let mut formulas: FormulaManager<FullSpan, Expr> = FormulaManager::new();
    formulas.add_formula(Formula::new(id("f"), var("g").plus(num(1)))).unwrap();
    formulas.add_formula(Formula::new(id("g"), var("x").times(num(2)))).unwrap();
    let mut e = var("f").less_than(var("g"));
    e.substitute_formulas(&formulas).unwrap();
    assert_eq!(text(&e), "x*2+1<x*2");
}

#[test]
fn substituting_labels() {
    let mut labels: LabelManager<FullSpan, Expr> = LabelManager::new();
    labels.add_label(Label::new(id("goal"), var("x").equals_to(num(3)))).unwrap();
    let mut e = Expression::label(id("goal")).or(Expression::label(id("other")));
    e.substitute_labels(&labels);
    assert_eq!(text(&e), "x=3|\"other\"");
}

#[test]
fn label_lookup_by_name() {
    let mut labels: LabelManager<FullSpan, Expr> = LabelManager::new();
    labels.add_label(Label::new(id("a"), num(1))).unwrap();
    labels.add_label(Label::new(id("b"), num(2))).unwrap();
    assert_eq!(labels.index_of_name("b"), Some(1));
    assert!(labels.by_name("c").is_none());
    assert!(labels.add_label(Label::new(id("a"), num(3))).is_err());
}

fn two_module_model() -> NamedModel {
    let mut model: NamedModel = Model::new(ModelType::dtmc());
    model
        .variable_manager
        .add_variable(
            VariableInfo::local_var(id("x"), VariableRange::bounded_int(num(0), num(5)), 0)
                .initial_value(num(0)),
        )
        .unwrap();
    let mut main = Module::new(id("main"));
    main.commands.push(increment("x", var("x").less_than(num(5))));
    model.modules.add(main).unwrap();
    model
}

#[test]
fn model_formulas_are_substituted() {
    let mut model = two_module_model();
    model.formulas.add_formula(Formula::new(id("full"), var("x").equals_to(num(5)))).unwrap();
    model.labels.add_label(Label::new(id("done"), var("full"))).unwrap();
    model.substitute_formulas().unwrap();
    assert_eq!(model.formulas.formulas.len(), 0);
    assert_eq!(text(&model.labels.labels[0].condition), "x=5");
}

#[test]
fn renamed_module_is_expanded() {
    let mut model = two_module_model();
    model.renamed_modules.push(RenamedModule::new(
        id("main"),
        id("copy"),
        RenameRules::with_rules(vec![RenameRule::new(id("x"), id("y"))]),
    ));
    model.expand_renamed_modules().unwrap();
    assert_eq!(model.renamed_modules.len(), 0);
    assert_eq!(model.modules.modules.len(), 2);
    let copy = model.modules.get_by_str("copy").unwrap();
    assert_eq!(copy.commands[0].text(&(), &floats), "[] y<5 -> 1 : (y'=y+1);");
    let y = model.variable_manager.get_by_str("y").unwrap();
    assert_eq!(y.scope, Some(1));
}

#[test]
fn renamed_module_with_missing_rule_is_refused() {
    let mut model = two_module_model();
    model.renamed_modules.push(RenamedModule::new(id("main"), id("copy"), RenameRules::new()));
    match model.expand_renamed_modules() {
        Err(ModuleExpansionError::MissingVariableRenaming { variable_name, .. }) => {
            assert_eq!(variable_name.name, "x")
        }
        other => panic!("unexpected result {:?}", other),
    }
}

#[test]
fn renamed_module_of_unknown_module_is_refused() {
    let mut model = two_module_model();
    model.renamed_modules.push(RenamedModule::new(id("nope"), id("copy"), RenameRules::new()));
    assert!(matches!(
        model.expand_renamed_modules(),
        Err(ModuleExpansionError::RenamingSourceDoesNotExist { .. })
    ));
}

#[test]
fn identifiers_are_replaced_by_references() {
    let model = two_module_model();
    let indexed = model.replace_identifiers_by_variable_indices().unwrap();
    let command = &indexed.modules.modules[0].commands[0];
    assert_eq!(command.text(&indexed.variable_manager, &floats), "[] x<5 -> 1 : (x'=x+1);");
}

#[test]
fn unknown_variables_are_reported() {
    let mut model = two_module_model();
    model.modules.modules[0].commands.push(increment("x", var("z").less_than(var("w"))));
    let errors = model.replace_identifiers_by_variable_indices().unwrap_err();
    let names: Vec<String> = errors.iter().map(|e| e.identifier.name.clone()).collect();
    assert_eq!(names, vec!["z".to_string(), "w".to_string()]);
}

#[test]
fn unnamed_actions_get_names() {
    let mut model = two_module_model();
    model.modules.modules[0].commands.push(increment("x", num(1).less_than(num(2))));
    model.name_unnamed_actions();
    let names: Vec<String> = model.modules.modules[0]
        .commands
        .iter()
        .map(|c| c.action.as_ref().unwrap().name.clone())
        .collect();
    assert_eq!(names, vec!["unnamed_action_0".to_string(), "unnamed_action_1".to_string()]);
}

#[test]
fn synchronising_actions_occur_in_two_modules() {
    let mut model: NamedModel = Model::new(ModelType::mdp());
    let mut a = Module::new(id("a"));
    a.commands.push(Command::new(Some(id("sync")), Expression::bool(true)));
    a.commands.push(Command::new(Some(id("alone")), Expression::bool(true)));
    let mut b = Module::new(id("b"));
    b.commands.push(Command::new(Some(id("sync")), Expression::bool(true)));
    b.commands.push(Command::new(Some(id("sync")), Expression::bool(false)));
    model.modules.add(a).unwrap();
    model.modules.add(b).unwrap();
    assert_eq!(model.actually_synchronising_actions(), vec!["sync".to_string()]);
}

#[test]
fn initial_values_become_an_init_block() {
    let mut model: NamedModel = Model::new(ModelType::dtmc());
    model
        .variable_manager
        .add_variable(
            VariableInfo::global_var(id("x"), VariableRange::bounded_int(num(0), num(3)))
                .initial_value(num(2)),
        )
        .unwrap();
    model
        .variable_manager
        .add_variable(VariableInfo::global_var(id("b"), VariableRange::bool()))
        .unwrap();
    model.init_statements_to_init_block();
    assert!(model.variable_manager.variables.iter().all(|v| v.initial_value.is_none()));
    assert_eq!(text(model.init_constraint.as_ref().unwrap()), "x=2&b=false");
}

#[test]
fn empty_updates_become_identity_updates() {
    let mut model = two_module_model();
    model.modules.modules[0].commands.push(Command::new(None, Expression::bool(true)));
    model.replace_empty_updates_with_identity_update();
    let command = &model.modules.modules[0].commands[1];
    assert_eq!(command.updates.len(), 1);
    assert_eq!(command.updates[0].assignments.len(), 0);
    assert_eq!(command.text(&(), &floats), "[] true -> 1 : ;");
}

#[test]
fn duplicate_module_is_refused() {
    let mut model = two_module_model();
    assert!(model.modules.add(Module::new(id("main"))).is_err());
    assert_eq!(model.modules.get_index_by_str("main"), Some(0));
}

#[test]
fn substituting_labels_expands_labels_used_by_earlier_labels() {
    let mut labels: LabelManager<FullSpan, Expr> = LabelManager::new();
    labels.add_label(Label::new(id("a"), Expression::label(id("b")).and(var("y")))).unwrap();
    labels.add_label(Label::new(id("b"), var("x").equals_to(num(3)))).unwrap();
    let mut e = Expression::label(id("a"));
    e.substitute_labels(&labels);
    assert_eq!(text(&e), "x=3&y");
}

#[test]
fn formula_cycle_lists_each_formula_once() {
    let mut formulas: FormulaManager<FullSpan, Expr> = FormulaManager::new();
    formulas.add_formula(Formula::new(id("a"), var("c").plus(num(5)))).unwrap();
    formulas.add_formula(Formula::new(id("b"), var("a").divide_by(num(2)))).unwrap();
    formulas.add_formula(Formula::new(id("c"), var("b").times(num(2)))).unwrap();
    let cycle = formulas.get_formula_replacement_ordering().unwrap_err();
    let names: Vec<String> = cycle.entries.iter().map(|e| e.formula_name.name.clone()).collect();
    assert_eq!(names.len(), 3);
    let rotations = [["a", "b", "c"], ["b", "c", "a"], ["c", "a", "b"]];
    assert!(rotations.iter().any(|r| r.iter().zip(names.iter()).all(|(x, y)| *x == y.as_str())));
}

#[test]
fn line_is_one_plus_newlines_before() {
    let source = "a\nbb\n\nccc";
    let map = CharacterToLineMap::from_str(source);
    for (i, _) in source.chars().enumerate() {
        let newlines = source.chars().take(i).filter(|c| *c == '\n').count();
        assert_eq!(map.get_line(i), 1 + newlines);
    }
    assert_eq!(map.get_line(0), 1);
}

#[test]
fn span_from_start_and_end_is_tracked() {
    let s1 = FullSpan::from_start_end(5, 8);
    let s2 = FullSpan::from_range(3..4);
    assert_eq!(FullSpan::join(&s1, &s2).range(), Some(3..8));
    assert_eq!(s1.into_range(), 5..8);
}
