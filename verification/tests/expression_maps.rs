use prism::expression_maps::VariableFinder;
use prism::expressions::Expression;
use prism::identifier::Identifier;
use prism::spans::FullSpan;

type Id = Identifier<FullSpan>;
type Expr = Expression<Id, FullSpan>;

fn id(name: &str) -> Id {
    Identifier::new(name).unwrap()
}

fn func(name: &str) -> Id {
    Identifier::new_potentially_reserved(name).unwrap()
}

fn var(name: &str) -> Expr {
    Expression::var_or_const(id(name))
}

fn num(v: i64) -> Expr {
    Expression::int_literal(v)
}

fn uses(e: Expr, name: &str) -> bool {
    let mut finder = VariableFinder::new(name);
    let found = e.visit(&mut finder);
    assert_eq!(finder.name, name);
    found
}

#[test]
fn visit_finds_a_variable_deep_in_an_expression() {
    let e = var("x").plus(num(2)).times(Expression::function(func("max"), vec![var("y"), num(3)]));
    assert!(uses(e, "y"));
}

#[test]
fn visit_finds_nothing_where_the_name_is_absent() {
    let e = var("x").plus(num(2)).times(Expression::function(func("max"), vec![var("y"), num(3)]));
    assert!(!uses(e, "z"));
}

#[test]
fn visit_does_not_take_labels_or_function_names_for_variables() {
    let e = || Expression::label(id("x")).and(Expression::function(func("max"), vec![num(1), num(2)]).equals_to(num(2)));
    assert!(!uses(e(), "x"));
    assert!(!uses(e(), "max"));
}

#[test]
fn visit_looks_into_every_branch_of_a_conditional() {
    let e = var("c").ternary(var("a").and(var("b").negate_bool()), num(1));
    assert!(uses(e, "b"));
}
