use prism::command::{Assignment, Command, Update};
use prism::display::Displayable;
use prism::expressions::Expression;
use prism::formulas::Formula;
use prism::identifier::Identifier;
use prism::labels::Label;
use prism::model::{Model, ModelType};
use prism::module::{Module, RenameRule, RenameRules, RenamedModule};
use prism::rewards::{Rewards, RewardsElement, RewardsTarget};
use prism::spans::FullSpan;
use prism::variables::{
    VariableAddError, VariableInfo, VariableManager, VariablePrintingStyle, VariableRange,
    VariableReference,
};

type Id = Identifier<FullSpan>;
type Expr = Expression<Id, FullSpan>;

fn floats(bits: u64) -> String {
    f64::from_bits(bits).to_string()
}

fn id(name: &str) -> Id {
    Identifier::new(name).unwrap()
}

fn var(name: &str) -> Expr {
    Expression::var_or_const(id(name))
}

fn num(v: i64) -> Expr {
    Expression::int_literal(v)
}

fn text(e: &Expr) -> String {
    e.text(&(), &floats)
}

#[test]
fn display_sum_and_product_need_no_parentheses() {
    assert_eq!(text(&var("a").plus(var("b").times(var("c")))), "a+b*c");
}

#[test]
fn display_lower_precedence_operand_is_parenthesised() {
    assert_eq!(text(&var("a").plus(var("b")).times(var("c"))), "(a+b)*c");
}

#[test]
fn display_operators_group_to_the_left() {
    assert_eq!(text(&var("a").minus(var("b")).minus(var("c"))), "a-b-c");
    assert_eq!(text(&var("a").minus(var("b").minus(var("c")))), "a-(b-c)");
}

#[test]
fn display_unary_operators() {
    assert_eq!(text(&var("a").plus(var("b")).negate_value()), "-(a+b)");
    assert_eq!(text(&var("a").and(var("b")).negate_bool()), "!(a&b)");
    assert_eq!(text(&var("a").negate_bool().negate_bool()), "!(!a)");
}

#[test]
fn display_literals() {
    assert_eq!(text(&num(-3)), "-3");
    assert_eq!(text(&num(i64::MIN)), "-9223372036854775808");
    assert_eq!(text(&Expression::float(0.5f64.to_bits())), "0.5");
    assert_eq!(text(&Expression::bool(true)), "true");
    assert_eq!(text(&Expression::label(id("goal"))), "\"goal\"");
}

#[test]
fn display_function_and_ternary() {
    let call = Expression::function(Identifier::new_potentially_reserved("max").unwrap(), vec![var("a"), var("b").plus(num(1))]);
    assert_eq!(text(&call), "max(a, b+1)");
    let cond = var("c").ternary(var("a"), var("b").ternary(num(1), num(2)));
    assert_eq!(text(&cond), "c?a:(b?1:2)");
}

#[test]
fn display_comparisons_and_logic() {
    let e = var("x").less_or_equal(num(3)).implies(var("y").not_equals_to(num(0)).or(var("z")));
    assert_eq!(text(&e), "x<=3=>y!=0|z");
}

#[test]
fn display_debug_form_is_fully_parenthesised() {
    let e = var("a").plus(var("b")).times(var("c").negate_value());
    assert_eq!(e.debug_text(&(), &floats), "((a)+(b))*(-(c))");
}

#[test]
fn display_expression_over_variable_references() {
    let mut manager: VariableManager<FullSpan, Expression<VariableReference, FullSpan>> =
        VariableManager::new();
    let reference = manager
        .add_variable(VariableInfo::global_var(id("x"), VariableRange::unbounded_int()))
        .unwrap();
    let e: Expression<VariableReference, FullSpan> =
        Expression::var_or_const(reference).plus(Expression::int_literal(12));
    assert_eq!(e.text(&manager, &floats), "x+12");
}

#[test]
fn display_variable_declarations_by_style() {
    let mut manager: VariableManager<FullSpan, Expr> = VariableManager::new();
    manager
        .add_variable(VariableInfo::global_const(id("N"), VariableRange::unbounded_int()).initial_value(num(10)))
        .unwrap();
    manager
        .add_variable(VariableInfo::global_var(id("g"), VariableRange::bool()))
        .unwrap();
    manager
        .add_variable(
            VariableInfo::local_var(id("x"), VariableRange::bounded_int(num(0), var("N")), 0)
                .initial_value(num(1)),
        )
        .unwrap();
    assert_eq!(
        manager.text_with_style(VariablePrintingStyle::Const, &(), &floats),
        "const int N = 10;\n\n"
    );
    assert_eq!(
        manager.text_with_style(VariablePrintingStyle::GlobalVar, &(), &floats),
        "global g : bool;\n\n"
    );
    assert_eq!(
        manager.text_with_style(VariablePrintingStyle::LocalVar { module_index: 0 }, &(), &floats),
        "    x : [0..N] init 1;\n\n"
    );
    assert_eq!(
        manager.text_with_style(VariablePrintingStyle::LocalVar { module_index: 1 }, &(), &floats),
        "\n"
    );
}

fn sample_command() -> Command<Id, FullSpan, Expr, Id> {
    let half = || Expression::float(0.5f64.to_bits());
    Command::with_updates(
        Some(id("step")),
        var("x").less_than(num(3)),
        vec![
            Update::with_assignments(
                half(),
                vec![
                    Assignment::new(id("x"), var("x").plus(num(1))),
                    Assignment::new(id("y"), num(0)),
                ],
            ),
            Update::with_assignments(half(), vec![Assignment::new(id("x"), num(0))]),
        ],
    )
}

#[test]
fn display_command() {
    assert_eq!(
        sample_command().text(&(), &floats),
        "[step] x<3 -> 0.5 : (x'=x+1) & (y'=0) + 0.5 : (x'=0);"
    );
    let empty: Command<Id, FullSpan, Expr, Id> = Command::new(None, Expression::bool(true));
    assert_eq!(empty.text(&(), &floats), "[] true -> true;");
}

#[test]
fn display_renamed_module() {
    let rules = RenameRules::with_rules(vec![
        RenameRule::new(id("x"), id("y")),
        RenameRule::new(id("a"), id("b")),
    ]);
    let m = RenamedModule::new(id("m1"), id("m2"), rules);
    assert_eq!(m.text(&(), &floats), "module m2 = m1 [x = y, a = b] endmodule");
}

#[test]
fn display_rewards() {
    let rewards: Rewards<FullSpan, Expr, Id> = Rewards::with_entries(
        Some(id("cost")),
        vec![
            RewardsElement::new(Expression::bool(true), num(1)),
            RewardsElement::with_target(var("x").equals_to(num(2)), num(5), RewardsTarget::Action(Some(id("go")))),
        ],
    );
    assert_eq!(
        rewards.text(&(), &floats),
        "rewards \"cost\"\n    true:1;\n    [go] x=2:5;\nendrewards\n"
    );
}

#[test]
fn display_model() {
    let mut model: Model<Id, FullSpan, Expr, Id> = Model::new(ModelType::mdp());
    model
        .variable_manager
        .add_variable(VariableInfo::global_const(id("N"), VariableRange::unbounded_int()).initial_value(num(3)))
        .unwrap();
    model
        .variable_manager
        .add_variable(VariableInfo::local_var(id("x"), VariableRange::bounded_int(num(0), var("N")), 0).initial_value(num(0)))
        .unwrap();
    model.formulas.add_formula(Formula::new(id("done"), var("x").equals_to(var("N")))).unwrap();
    model.labels.add_label(Label::new(id("goal"), var("done"))).unwrap();
    let mut module = Module::new(id("main"));
    module.commands.push(Command::with_updates(
        None,
        var("x").less_than(var("N")),
        vec![Update::with_assignments(num(1), vec![Assignment::new(id("x"), var("x").plus(num(1)))])],
    ));
    model.modules.add(module).unwrap();
    let expected = "mdp\n\nconst int N = 3;\n\n\nformula done = x=N;\n\nlabel \"goal\" = done;\n\n\nmodule main\n    x : [0..N] init 0;\n\n    [] x<N -> 1 : (x'=x+1);\nendmodule\n\n";
    assert_eq!(model.text(&(), &floats), expected);
}

#[test]
fn display_variable_add_error() {
    let e = VariableAddError::VariableExists { reference: VariableReference::new(42) };
    assert_eq!(e.message(), "Variable already exists in this manager (index 42)");
}
