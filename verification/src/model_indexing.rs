use crate::command::{Assignment, Command, Update};
use crate::expressions::{mapped, Expression, UnknownVariableError};
use crate::formulas::{Formula, FormulaManager};
use crate::identifier::Identifier;
use crate::indexing::{error_identifiers, index_node, range_indexed, range_unknowns, reference_for, unknown_occurrences};
use crate::labels::{Label, LabelManager};
use crate::model::Model;
use crate::model_maps::{assignment_exprs_mapped, command_exprs_mapped, element_exprs_mapped, formula_exprs_mapped, label_exprs_mapped, module_exprs_mapped, rewards_exprs_mapped, update_exprs_mapped};
use crate::module::{Module, ModuleManager};
use crate::names::lemma_first_index_of_spec;
use crate::rewards::{Rewards, RewardsElement, RewardsManager};
use crate::spans::Span;
use crate::variables::{variable_names, VariableInfo, VariableManager, VariableReference};
use vstd::prelude::*;

verus! {

/// The concatenation of `f(x)` over the elements `x` of `s`, in order.
pub open spec fn concat_map<T, U>(s: Seq<T>, f: spec_fn(T) -> Seq<U>) -> Seq<U>
    decreases s.len(),
{
    if s.len() == 0 {
        Seq::empty()
    } else {
        concat_map(s.drop_last(), f) + f(s.last())
    }
}

proof fn lemma_concat_map_take<T, U>(s: Seq<T>, f: spec_fn(T) -> Seq<U>, i: int)
    requires
        0 <= i < s.len(),
    ensures
        concat_map(s.take(i + 1), f) == concat_map(s.take(i), f) + f(s[i]),
{
    assert(s.take(i + 1).drop_last() =~= s.take(i));
}

proof fn lemma_concat_map_empty_prefix<T, U>(s: Seq<T>, f: spec_fn(T) -> Seq<U>, i: int)
    requires
        0 <= i < s.len(),
    ensures
        concat_map(s.take(i + 1), f).len() == 0 ==> concat_map(s.take(i), f).len() == 0 && f(s[i]).len() == 0,
{
    lemma_concat_map_take(s, f, i);
}

/// The relation of an assignment target to its reference.
pub open spec fn target_indexed<S: Span>(names: Seq<Seq<char>>) -> spec_fn(Identifier<S>, VariableReference) -> bool {
    |t: Identifier<S>, r: VariableReference| r == reference_for(names, t.name@)
}

/// The relation of an expression to its indexed version.
pub open spec fn expression_indexed<S: Span>(names: Seq<Seq<char>>) -> spec_fn(
    Expression<Identifier<S>, S>,
    Expression<VariableReference, S>,
) -> bool {
    |e: Expression<Identifier<S>, S>, r: Expression<VariableReference, S>| mapped(e, r, index_node(names))
}

/// The unknown names of an expression, as a function.
pub open spec fn expression_errors<S: Span>(names: Seq<Seq<char>>) -> spec_fn(Expression<Identifier<S>, S>) -> Seq<Identifier<S>> {
    |e: Expression<Identifier<S>, S>| unknown_occurrences(e, names)
}

/// The unknown names of an assignment: the target (if unknown), then those of the value.
pub open spec fn assignment_errors<S: Span>(names: Seq<Seq<char>>) -> spec_fn(
    Assignment<Identifier<S>, S, Expression<Identifier<S>, S>>,
) -> Seq<Identifier<S>> {
    |a: Assignment<Identifier<S>, S, Expression<Identifier<S>, S>>|
        (if names.contains(a.target.name@) { Seq::empty() } else { seq![a.target] })
            + unknown_occurrences(a.value, names)
}

/// The unknown names of an update: those of its assignments, then those of its probability.
pub open spec fn update_errors<S: Span>(names: Seq<Seq<char>>) -> spec_fn(
    Update<Identifier<S>, S, Expression<Identifier<S>, S>>,
) -> Seq<Identifier<S>> {
    |u: Update<Identifier<S>, S, Expression<Identifier<S>, S>>|
        concat_map(u.assignments@, assignment_errors(names)) + unknown_occurrences(u.probability, names)
}

/// The unknown names of a command: those of its updates, then those of its guard.
pub open spec fn command_errors<S: Span, A>(names: Seq<Seq<char>>) -> spec_fn(
    Command<Identifier<S>, S, Expression<Identifier<S>, S>, A>,
) -> Seq<Identifier<S>> {
    |c: Command<Identifier<S>, S, Expression<Identifier<S>, S>, A>|
        concat_map(c.updates@, update_errors(names)) + unknown_occurrences(c.guard, names)
}

/// The unknown names of a module: those of its commands.
pub open spec fn module_errors<S: Span, A>(names: Seq<Seq<char>>) -> spec_fn(
    Module<Identifier<S>, S, Expression<Identifier<S>, S>, A>,
) -> Seq<Identifier<S>> {
    |m: Module<Identifier<S>, S, Expression<Identifier<S>, S>, A>| concat_map(m.commands@, command_errors(names))
}

/// The unknown names of the initial value of a variable. (Those of its range are not reported.)
pub open spec fn variable_errors<S: Span>(names: Seq<Seq<char>>) -> spec_fn(
    VariableInfo<S, Expression<Identifier<S>, S>>,
) -> Seq<Identifier<S>> {
    |v: VariableInfo<S, Expression<Identifier<S>, S>>|
        match v.initial_value {
            Some(i) => unknown_occurrences(i, names),
            None => Seq::empty(),
        }
}

/// The unknown names of a formula's condition.
pub open spec fn formula_errors<S: Span>(names: Seq<Seq<char>>) -> spec_fn(
    Formula<S, Expression<Identifier<S>, S>>,
) -> Seq<Identifier<S>> {
    |f: Formula<S, Expression<Identifier<S>, S>>| unknown_occurrences(f.condition, names)
}

/// The unknown names of a label's condition.
pub open spec fn label_errors<S: Span>(names: Seq<Seq<char>>) -> spec_fn(
    Label<S, Expression<Identifier<S>, S>>,
) -> Seq<Identifier<S>> {
    |l: Label<S, Expression<Identifier<S>, S>>| unknown_occurrences(l.condition, names)
}

/// The unknown names of a reward entry: those of its condition, then those of its value.
pub open spec fn element_errors<S: Span, A>(names: Seq<Seq<char>>) -> spec_fn(
    RewardsElement<S, Expression<Identifier<S>, S>, A>,
) -> Seq<Identifier<S>> {
    |e: RewardsElement<S, Expression<Identifier<S>, S>, A>|
        unknown_occurrences(e.condition, names) + unknown_occurrences(e.value, names)
}

/// The unknown names of a reward structure: those of its entries.
pub open spec fn rewards_errors<S: Span, A>(names: Seq<Seq<char>>) -> spec_fn(
    Rewards<S, Expression<Identifier<S>, S>, A>,
) -> Seq<Identifier<S>> {
    |r: Rewards<S, Expression<Identifier<S>, S>, A>| concat_map(r.entries@, element_errors(names))
}

/// The unknown names of a model, in the order in which they are reported: initial values of
/// variables, formulas, modules, the init constraint, labels, rewards.
pub open spec fn model_errors<S: Span, A>(
    m: Model<Identifier<S>, S, Expression<Identifier<S>, S>, A>,
) -> Seq<Identifier<S>> {
    let names = variable_names(m.variable_manager.variables@);
    concat_map(m.variable_manager.variables@, variable_errors(names))
        + concat_map(m.formulas.formulas@, formula_errors(names))
        + concat_map(m.modules.modules@, module_errors(names))
        + match m.init_constraint {
            Some(i) => unknown_occurrences(i, names),
            None => Seq::empty(),
        }
        + concat_map(m.labels.labels@, label_errors(names))
        + concat_map(m.rewards.rewards@, rewards_errors(names))
}

/// `w` is the variable `v` with its range and initial value indexed.
pub open spec fn info_indexed<S: Span>(
    v: VariableInfo<S, Expression<Identifier<S>, S>>,
    w: VariableInfo<S, Expression<VariableReference, S>>,
    names: Seq<Seq<char>>,
) -> bool {
    &&& w.name == v.name
    &&& range_indexed(v.range, w.range, names)
    &&& (v.initial_value is None <==> w.initial_value is None)
    &&& (v.initial_value matches Some(i) ==> mapped(i, w.initial_value->0, index_node(names)))
    &&& w.span == v.span
    &&& w.is_constant == v.is_constant
    &&& w.scope == v.scope
}

/// `b` holds, in order, the indexed versions of the variables of `a` whose range has no unknown
/// names; the others are left out.
pub open spec fn variables_indexed<S: Span>(
    a: Seq<VariableInfo<S, Expression<Identifier<S>, S>>>,
    b: Seq<VariableInfo<S, Expression<VariableReference, S>>>,
    names: Seq<Seq<char>>,
) -> bool
    decreases a.len(),
{
    if a.len() == 0 {
        b.len() == 0
    } else if range_unknowns(a.last().range, names).len() == 0 {
        &&& b.len() > 0
        &&& info_indexed(a.last(), b.last(), names)
        &&& variables_indexed(a.drop_last(), b.drop_last(), names)
    } else {
        variables_indexed(a.drop_last(), b, names)
    }
}

/// `b` is the model `a` with every variable and label replaced by a reference to the variable of
/// that name (the first one), variables whose range has unknown names left out.
pub open spec fn model_indexed<S: Span, A>(
    a: Model<Identifier<S>, S, Expression<Identifier<S>, S>, A>,
    b: Model<VariableReference, S, Expression<VariableReference, S>, A>,
) -> bool {
    let names = variable_names(a.variable_manager.variables@);
    let rv = target_indexed::<S>(names);
    let re = expression_indexed::<S>(names);
    &&& b.model_type == a.model_type
    &&& variables_indexed(a.variable_manager.variables@, b.variable_manager.variables@, names)
    &&& b.formulas.formulas@.len() == a.formulas.formulas@.len()
    &&& (forall|i: int|
        0 <= i < a.formulas.formulas@.len() ==> #[trigger] formula_exprs_mapped(a.formulas.formulas@[i], b.formulas.formulas@[i], re))
    &&& b.modules.modules@.len() == a.modules.modules@.len()
    &&& (forall|i: int|
        0 <= i < a.modules.modules@.len() ==> #[trigger] module_exprs_mapped(a.modules.modules@[i], b.modules.modules@[i], rv, re))
    &&& b.renamed_modules@.len() == 0
    &&& (a.init_constraint is None <==> b.init_constraint is None)
    &&& (a.init_constraint matches Some(i) ==> mapped(i, b.init_constraint->0, index_node(names)))
    &&& b.labels.labels@.len() == a.labels.labels@.len()
    &&& (forall|i: int|
        0 <= i < a.labels.labels@.len() ==> #[trigger] label_exprs_mapped(a.labels.labels@[i], b.labels.labels@[i], re))
    &&& b.rewards.rewards@.len() == a.rewards.rewards@.len()
    &&& (forall|i: int|
        0 <= i < a.rewards.rewards@.len() ==> #[trigger] rewards_exprs_mapped(a.rewards.rewards@[i], b.rewards.rewards@[i], re))
    &&& b.span == a.span
}

proof fn lemma_error_identifiers_append<S: Span>(a: Seq<UnknownVariableError<S>>, b: Seq<UnknownVariableError<S>>)
    ensures
        error_identifiers(a + b) == error_identifiers(a) + error_identifiers(b),
{
    assert(error_identifiers(a + b) =~= error_identifiers(a) + error_identifiers(b));
}

/// Indexes one expression, appending its unknown names to `errors`.
fn index_expression<S: Span>(
    e: Expression<Identifier<S>, S>,
    variable_manager: &VariableManager<S, Expression<Identifier<S>, S>>,
    errors: &mut Vec<UnknownVariableError<S>>,
) -> (r: Option<Expression<VariableReference, S>>)
    ensures
        error_identifiers(final(errors)@) == error_identifiers(old(errors)@) + unknown_occurrences(
            e,
            variable_names(variable_manager.variables@),
        ),
        r is Some <==> unknown_occurrences(e, variable_names(variable_manager.variables@)).len() == 0,
        r matches Some(x) ==> mapped(e, x, index_node(variable_names(variable_manager.variables@))),
{
    let ghost u = unknown_occurrences(e, variable_names(variable_manager.variables@));
    match e.replace_identifiers_by_variable_indices(variable_manager) {
        Ok(x) => {
            assert(error_identifiers(errors@) + u =~= error_identifiers(errors@));
            Some(x)
        },
        Err(errs) => {
            let mut errs = errs;
            let ghost before = errors@;
            let ghost more = errs@;
            errors.append(&mut errs);
            proof {
                lemma_error_identifiers_append(before, more);
            }
            None
        },
    }
}

/// Indexes an assignment: its target and its value.
fn index_assignment<S: Span>(
    a: Assignment<Identifier<S>, S, Expression<Identifier<S>, S>>,
    variable_manager: &VariableManager<S, Expression<Identifier<S>, S>>,
    errors: &mut Vec<UnknownVariableError<S>>,
) -> (r: Option<Assignment<VariableReference, S, Expression<VariableReference, S>>>)
    ensures
        error_identifiers(final(errors)@) == error_identifiers(old(errors)@) + assignment_errors::<S>(
            variable_names(variable_manager.variables@),
        )(a),
        assignment_errors::<S>(variable_names(variable_manager.variables@))(a).len() == 0 ==> (r matches Some(x)
            && assignment_exprs_mapped(
            a,
            x,
            target_indexed::<S>(variable_names(variable_manager.variables@)),
            expression_indexed::<S>(variable_names(variable_manager.variables@)),
        )),
{
    let ghost names = variable_names(variable_manager.variables@);
    let ghost start = error_identifiers(errors@);
    proof {
        lemma_first_index_of_spec(names, a.target.name@);
    }
    let target = variable_manager.get_reference(&a.target);
    if target.is_none() {
        let error = UnknownVariableError { identifier: a.target.duplicate() };
        let ghost before = errors@;
        errors.push(error);
        proof {
            assert(error_identifiers(errors@) =~= error_identifiers(before).push(a.target));
        }
    }
    proof {
        assert(error_identifiers(errors@) == start + (if names.contains(a.target.name@) {
            Seq::<Identifier<S>>::empty()
        } else {
            seq![a.target]
        }));
    }
    let ghost mid = error_identifiers(errors@);
    let value = index_expression(a.value, variable_manager, errors);
    proof {
        assert(start + assignment_errors::<S>(names)(a) =~= mid + unknown_occurrences(a.value, names));
    }
    match (target, value) {
        (Some(t), Some(v)) => Some(Assignment { target: t, value: v, target_span: a.target_span, span: a.span }),
        _ => None,
    }
}

/// Indexes an update: its assignments, then its probability.
fn index_update<S: Span>(
    u: Update<Identifier<S>, S, Expression<Identifier<S>, S>>,
    variable_manager: &VariableManager<S, Expression<Identifier<S>, S>>,
    errors: &mut Vec<UnknownVariableError<S>>,
) -> (r: Option<Update<VariableReference, S, Expression<VariableReference, S>>>)
    ensures
        error_identifiers(final(errors)@) == error_identifiers(old(errors)@) + update_errors::<S>(
            variable_names(variable_manager.variables@),
        )(u),
        update_errors::<S>(variable_names(variable_manager.variables@))(u).len() == 0 ==> (r matches Some(x)
            && update_exprs_mapped(
            u,
            x,
            target_indexed::<S>(variable_names(variable_manager.variables@)),
            expression_indexed::<S>(variable_names(variable_manager.variables@)),
        )),
{
    let ghost names = variable_names(variable_manager.variables@);
    let ghost start0 = error_identifiers(errors@);
        let mut assignments: Vec<Assignment<VariableReference, S, Expression<VariableReference, S>>> = Vec::new();
        let mut rest = u.assignments;
        let ghost orig = rest@;
        let ghost start = error_identifiers(errors@);
        let ghost done: int = 0;
        assert(orig.skip(0) =~= orig);
        assert(orig.take(0) =~= Seq::empty());
        while rest.len() > 0
            invariant
                names == variable_names(variable_manager.variables@),
                0 <= done <= orig.len(),
                rest@ == orig.skip(done),
                error_identifiers(errors@) == start + concat_map(orig.take(done), assignment_errors::<S>(names)),
                concat_map(orig.take(done), assignment_errors::<S>(names)).len() == 0 ==> assignments@.len() == done
                    && forall|j: int| 0 <= j < done ==> #[trigger] assignment_exprs_mapped(orig[j], assignments@[j], target_indexed::<S>(names), expression_indexed::<S>(names)),
            decreases rest.len(),
        {
            proof {
                assert(orig.skip(done).drop_first() =~= orig.skip(done + 1));
                lemma_concat_map_take(orig, assignment_errors::<S>(names), done);
                lemma_concat_map_empty_prefix(orig, assignment_errors::<S>(names), done);
            }
            let x = rest.remove(0);
            let ghost before = error_identifiers(errors@);
            match index_assignment(x, variable_manager, errors) {
                Some(y) => {
                    assignments.push(y);
                },
                None => {},
            }
            proof {
                done = done + 1;
            }
        }
        proof {
            assert(orig.take(done) =~= orig);
        }
    let ghost mid = error_identifiers(errors@);
    let probability = index_expression(u.probability, variable_manager, errors);
    proof {
        assert(start0 + update_errors::<S>(names)(u) =~= mid + unknown_occurrences(u.probability, names));
    }
    match probability {
        Some(p) => Some(Update { probability: p, assignments, span: u.span }),
        None => None,
    }
}

/// Indexes a command: its updates, then its guard.
fn index_command<S: Span, A>(
    c: Command<Identifier<S>, S, Expression<Identifier<S>, S>, A>,
    variable_manager: &VariableManager<S, Expression<Identifier<S>, S>>,
    errors: &mut Vec<UnknownVariableError<S>>,
) -> (r: Option<Command<VariableReference, S, Expression<VariableReference, S>, A>>)
    ensures
        error_identifiers(final(errors)@) == error_identifiers(old(errors)@) + command_errors::<S, A>(
            variable_names(variable_manager.variables@),
        )(c),
        command_errors::<S, A>(variable_names(variable_manager.variables@))(c).len() == 0 ==> (r matches Some(x)
            && command_exprs_mapped(
            c,
            x,
            target_indexed::<S>(variable_names(variable_manager.variables@)),
            expression_indexed::<S>(variable_names(variable_manager.variables@)),
        )),
{
    let ghost names = variable_names(variable_manager.variables@);
    let ghost start0 = error_identifiers(errors@);
        let mut updates: Vec<Update<VariableReference, S, Expression<VariableReference, S>>> = Vec::new();
        let mut rest = c.updates;
        let ghost orig = rest@;
        let ghost start = error_identifiers(errors@);
        let ghost done: int = 0;
        assert(orig.skip(0) =~= orig);
        assert(orig.take(0) =~= Seq::empty());
        while rest.len() > 0
            invariant
                names == variable_names(variable_manager.variables@),
                0 <= done <= orig.len(),
                rest@ == orig.skip(done),
                error_identifiers(errors@) == start + concat_map(orig.take(done), update_errors::<S>(names)),
                concat_map(orig.take(done), update_errors::<S>(names)).len() == 0 ==> updates@.len() == done
                    && forall|j: int| 0 <= j < done ==> #[trigger] update_exprs_mapped(orig[j], updates@[j], target_indexed::<S>(names), expression_indexed::<S>(names)),
            decreases rest.len(),
        {
            proof {
                assert(orig.skip(done).drop_first() =~= orig.skip(done + 1));
                lemma_concat_map_take(orig, update_errors::<S>(names), done);
                lemma_concat_map_empty_prefix(orig, update_errors::<S>(names), done);
            }
            let x = rest.remove(0);
            let ghost before = error_identifiers(errors@);
            match index_update(x, variable_manager, errors) {
                Some(y) => {
                    updates.push(y);
                },
                None => {},
            }
            proof {
                done = done + 1;
            }
        }
        proof {
            assert(orig.take(done) =~= orig);
        }
    let ghost mid = error_identifiers(errors@);
    let guard = index_expression(c.guard, variable_manager, errors);
    proof {
        assert(start0 + command_errors::<S, A>(names)(c) =~= mid + unknown_occurrences(c.guard, names));
    }
    match guard {
        Some(g) => Some(Command { action: c.action, action_span: c.action_span, guard: g, updates, span: c.span }),
        None => None,
    }
}

/// Indexes a module: its commands.
fn index_module<S: Span, A>(
    m: Module<Identifier<S>, S, Expression<Identifier<S>, S>, A>,
    variable_manager: &VariableManager<S, Expression<Identifier<S>, S>>,
    errors: &mut Vec<UnknownVariableError<S>>,
) -> (r: Option<Module<VariableReference, S, Expression<VariableReference, S>, A>>)
    ensures
        error_identifiers(final(errors)@) == error_identifiers(old(errors)@) + module_errors::<S, A>(
            variable_names(variable_manager.variables@),
        )(m),
        module_errors::<S, A>(variable_names(variable_manager.variables@))(m).len() == 0 ==> (r matches Some(x)
            && module_exprs_mapped(
            m,
            x,
            target_indexed::<S>(variable_names(variable_manager.variables@)),
            expression_indexed::<S>(variable_names(variable_manager.variables@)),
        )),
{
    let ghost names = variable_names(variable_manager.variables@);
        let mut commands: Vec<Command<VariableReference, S, Expression<VariableReference, S>, A>> = Vec::new();
        let mut rest = m.commands;
        let ghost orig = rest@;
        let ghost start = error_identifiers(errors@);
        let ghost done: int = 0;
        assert(orig.skip(0) =~= orig);
        assert(orig.take(0) =~= Seq::empty());
        while rest.len() > 0
            invariant
                names == variable_names(variable_manager.variables@),
                0 <= done <= orig.len(),
                rest@ == orig.skip(done),
                error_identifiers(errors@) == start + concat_map(orig.take(done), command_errors::<S, A>(names)),
                concat_map(orig.take(done), command_errors::<S, A>(names)).len() == 0 ==> commands@.len() == done
                    && forall|j: int| 0 <= j < done ==> #[trigger] command_exprs_mapped(orig[j], commands@[j], target_indexed::<S>(names), expression_indexed::<S>(names)),
            decreases rest.len(),
        {
            proof {
                assert(orig.skip(done).drop_first() =~= orig.skip(done + 1));
                lemma_concat_map_take(orig, command_errors::<S, A>(names), done);
                lemma_concat_map_empty_prefix(orig, command_errors::<S, A>(names), done);
            }
            let x = rest.remove(0);
            let ghost before = error_identifiers(errors@);
            match index_command(x, variable_manager, errors) {
                Some(y) => {
                    commands.push(y);
                },
                None => {},
            }
            proof {
                done = done + 1;
            }
        }
        proof {
            assert(orig.take(done) =~= orig);
        }
    Some(Module { name: m.name, commands, span: m.span })
}

/// Indexes a reward structure: its entries, condition before value.
fn index_rewards<S: Span, A>(
    r: Rewards<S, Expression<Identifier<S>, S>, A>,
    variable_manager: &VariableManager<S, Expression<Identifier<S>, S>>,
    errors: &mut Vec<UnknownVariableError<S>>,
) -> (out: Option<Rewards<S, Expression<VariableReference, S>, A>>)
    ensures
        error_identifiers(final(errors)@) == error_identifiers(old(errors)@) + rewards_errors::<S, A>(
            variable_names(variable_manager.variables@),
        )(r),
        rewards_errors::<S, A>(variable_names(variable_manager.variables@))(r).len() == 0 ==> (out matches Some(x)
            && rewards_exprs_mapped(r, x, expression_indexed::<S>(variable_names(variable_manager.variables@)))),
{
    let ghost names = variable_names(variable_manager.variables@);
        let mut entries: Vec<RewardsElement<S, Expression<VariableReference, S>, A>> = Vec::new();
        let mut rest = r.entries;
        let ghost orig = rest@;
        let ghost start = error_identifiers(errors@);
        let ghost done: int = 0;
        assert(orig.skip(0) =~= orig);
        assert(orig.take(0) =~= Seq::empty());
        while rest.len() > 0
            invariant
                names == variable_names(variable_manager.variables@),
                0 <= done <= orig.len(),
                rest@ == orig.skip(done),
                error_identifiers(errors@) == start + concat_map(orig.take(done), element_errors::<S, A>(names)),
                concat_map(orig.take(done), element_errors::<S, A>(names)).len() == 0 ==> entries@.len() == done
                    && forall|j: int| 0 <= j < done ==> #[trigger] element_exprs_mapped(orig[j], entries@[j], expression_indexed::<S>(names)),
            decreases rest.len(),
        {
            proof {
                assert(orig.skip(done).drop_first() =~= orig.skip(done + 1));
                lemma_concat_map_take(orig, element_errors::<S, A>(names), done);
                lemma_concat_map_empty_prefix(orig, element_errors::<S, A>(names), done);
            }
            let x = rest.remove(0);
            let ghost before = error_identifiers(errors@);
            match index_element(x, variable_manager, errors) {
                Some(y) => {
                    entries.push(y);
                },
                None => {},
            }
            proof {
                done = done + 1;
            }
        }
        proof {
            assert(orig.take(done) =~= orig);
        }
    Some(Rewards { name: r.name, entries, span: r.span })
}

/// Indexes a reward entry: its condition, then its value.
fn index_element<S: Span, A>(
    e: RewardsElement<S, Expression<Identifier<S>, S>, A>,
    variable_manager: &VariableManager<S, Expression<Identifier<S>, S>>,
    errors: &mut Vec<UnknownVariableError<S>>,
) -> (out: Option<RewardsElement<S, Expression<VariableReference, S>, A>>)
    ensures
        error_identifiers(final(errors)@) == error_identifiers(old(errors)@) + element_errors::<S, A>(
            variable_names(variable_manager.variables@),
        )(e),
        element_errors::<S, A>(variable_names(variable_manager.variables@))(e).len() == 0 ==> (out matches Some(x)
            && element_exprs_mapped(e, x, expression_indexed::<S>(variable_names(variable_manager.variables@)))),
{
    let ghost names = variable_names(variable_manager.variables@);
    let ghost start = error_identifiers(errors@);
    let condition = index_expression(e.condition, variable_manager, errors);
    let ghost mid = error_identifiers(errors@);
    let value = index_expression(e.value, variable_manager, errors);
    proof {
        assert(start + element_errors::<S, A>(names)(e) =~= mid + unknown_occurrences(e.value, names));
    }
    match (condition, value) {
        (Some(c), Some(v)) => Some(RewardsElement { condition: c, value: v, target: e.target, span: e.span }),
        _ => None,
    }
}

/// Indexes a formula's condition.
fn index_formula<S: Span>(
    f: Formula<S, Expression<Identifier<S>, S>>,
    variable_manager: &VariableManager<S, Expression<Identifier<S>, S>>,
    errors: &mut Vec<UnknownVariableError<S>>,
) -> (out: Option<Formula<S, Expression<VariableReference, S>>>)
    ensures
        error_identifiers(final(errors)@) == error_identifiers(old(errors)@) + formula_errors::<S>(
            variable_names(variable_manager.variables@),
        )(f),
        formula_errors::<S>(variable_names(variable_manager.variables@))(f).len() == 0 ==> (out matches Some(x)
            && formula_exprs_mapped(f, x, expression_indexed::<S>(variable_names(variable_manager.variables@)))),
{
    match index_expression(f.condition, variable_manager, errors) {
        Some(c) => Some(Formula { name: f.name, condition: c, span: f.span }),
        None => None,
    }
}

/// Indexes a label's condition.
fn index_label<S: Span>(
    l: Label<S, Expression<Identifier<S>, S>>,
    variable_manager: &VariableManager<S, Expression<Identifier<S>, S>>,
    errors: &mut Vec<UnknownVariableError<S>>,
) -> (out: Option<Label<S, Expression<VariableReference, S>>>)
    ensures
        error_identifiers(final(errors)@) == error_identifiers(old(errors)@) + label_errors::<S>(
            variable_names(variable_manager.variables@),
        )(l),
        label_errors::<S>(variable_names(variable_manager.variables@))(l).len() == 0 ==> (out matches Some(x)
            && label_exprs_mapped(l, x, expression_indexed::<S>(variable_names(variable_manager.variables@)))),
{
    match index_expression(l.condition, variable_manager, errors) {
        Some(c) => Some(Label { name: l.name, condition: c, span: l.span }),
        None => None,
    }
}

/// Indexes an expression that stays where it is, appending its unknown names to `errors`.
fn index_expression_ref<S: Span>(
    e: &Expression<Identifier<S>, S>,
    variable_manager: &VariableManager<S, Expression<Identifier<S>, S>>,
    errors: &mut Vec<UnknownVariableError<S>>,
) -> (r: Option<Expression<VariableReference, S>>)
    ensures
        error_identifiers(final(errors)@) == error_identifiers(old(errors)@) + unknown_occurrences(
            *e,
            variable_names(variable_manager.variables@),
        ),
        r is Some <==> unknown_occurrences(*e, variable_names(variable_manager.variables@)).len() == 0,
        r matches Some(x) ==> mapped(*e, x, index_node(variable_names(variable_manager.variables@))),
{
    let before = errors.len();
    let x = e.index_into(variable_manager, errors);
    proof {
        assert(error_identifiers(errors@).len() == errors@.len());
        assert(error_identifiers(old(errors)@).len() == old(errors)@.len());
    }
    if errors.len() == before {
        Some(x)
    } else {
        None
    }
}

impl<S: Span, A> Model<Identifier<S>, S, Expression<Identifier<S>, S>, A> {
    /// Turns a model that refers to variables by name into one that refers to them by
    /// [`VariableReference`]: every variable, label and assignment target becomes a reference to
    /// the (first) variable of that name in the model's variable manager.
    ///
    /// Fails with every unknown name, in this order: initial values of variables, formulas,
    /// modules (per command: assignment targets and values, probabilities, then the guard), the
    /// init constraint, labels, rewards. Unknown names in the bounds of a variable's range are not
    /// reported; such a variable is left out of the result. Renamed modules must have been
    /// expanded first.
    pub fn replace_identifiers_by_variable_indices(self) -> (r: Result<
        Model<VariableReference, S, Expression<VariableReference, S>, A>,
        Vec<UnknownVariableError<S>>,
    >)
        requires
            self.renamed_modules@.len() == 0,
        ensures
            r is Ok <==> model_errors(self).len() == 0,
            r matches Ok(m) ==> model_indexed(self, m),
            r matches Err(errs) ==> error_identifiers(errs@) == model_errors(self),
    {
        let ghost names = variable_names(self.variable_manager.variables@);
        let ghost model = self;
        let mut errors: Vec<UnknownVariableError<S>> = Vec::new();
        proof {
            assert(error_identifiers(errors@) =~= Seq::<Identifier<S>>::empty());
        }
        let variable_manager = &self.variable_manager;
        let ghost vars = variable_manager.variables@;
        let mut variables: Vec<VariableInfo<S, Expression<VariableReference, S>>> = Vec::new();
        let mut i: usize = 0;
        assert(vars.take(0) =~= Seq::empty());
        while i < variable_manager.variables.len()
            invariant
                names == variable_names(variable_manager.variables@),
                vars == variable_manager.variables@,
                i <= vars.len(),
                error_identifiers(errors@) == concat_map(vars.take(i as int), variable_errors::<S>(names)),
                concat_map(vars.take(i as int), variable_errors::<S>(names)).len() == 0 ==> variables_indexed(
                    vars.take(i as int),
                    variables@,
                    names,
                ),
            decreases variable_manager.variables.len() - i,
        {
            proof {
                lemma_concat_map_take(vars, variable_errors::<S>(names), i as int);
                lemma_concat_map_empty_prefix(vars, variable_errors::<S>(names), i as int);
                assert(vars.take(i + 1).drop_last() =~= vars.take(i as int));
                assert(vars.take(i + 1).last() == vars[i as int]);
            }
            let v = &variable_manager.variables[i];
            let range = v.range.replace_identifiers_by_variable_indices(variable_manager);
            let ghost before = error_identifiers(errors@);
            let initial_value = match &v.initial_value {
                None => {
                    assert(before + variable_errors::<S>(names)(*v) =~= before);
                    None
                },
                Some(iv) => index_expression_ref(iv, variable_manager, &mut errors),
            };
            match range {
                Ok(range) => {
                    let ghost old_out = variables@;
                    variables.push(VariableInfo {
                        name: v.name.duplicate(),
                        range,
                        initial_value,
                        span: v.span.duplicate(),
                        is_constant: v.is_constant,
                        scope: v.scope,
                    });
                    proof {
                        assert(variables@.drop_last() =~= old_out);
                    }
                },
                Err(_) => {},
            }
            i = i + 1;
        }
        proof {
            assert(vars.take(i as int) =~= vars);
        }
        let ghost errors_variables = error_identifiers(errors@);
        let mut formulas: Vec<Formula<S, Expression<VariableReference, S>>> = Vec::new();
        let mut rest = self.formulas.formulas;
        let ghost orig = rest@;
        let ghost start = error_identifiers(errors@);
        let ghost done: int = 0;
        assert(orig == model.formulas.formulas@);
        assert(orig.skip(0) =~= orig);
        assert(orig.take(0) =~= Seq::empty());
        while rest.len() > 0
            invariant
                names == variable_names(variable_manager.variables@),
                0 <= done <= orig.len(),
                rest@ == orig.skip(done),
                error_identifiers(errors@) == start + concat_map(orig.take(done), formula_errors::<S>(names)),
                concat_map(orig.take(done), formula_errors::<S>(names)).len() == 0 ==> formulas@.len() == done
                    && forall|j: int| 0 <= j < done ==> #[trigger] formula_exprs_mapped(orig[j], formulas@[j], expression_indexed::<S>(names)),
            decreases rest.len(),
        {
            proof {
                assert(orig.skip(done).drop_first() =~= orig.skip(done + 1));
                lemma_concat_map_take(orig, formula_errors::<S>(names), done);
                lemma_concat_map_empty_prefix(orig, formula_errors::<S>(names), done);
            }
            let x = rest.remove(0);
            let ghost before = error_identifiers(errors@);
            match index_formula(x, variable_manager, &mut errors) {
                Some(y) => {
                    formulas.push(y);
                },
                None => {},
            }
            proof {
                done = done + 1;
            }
        }
        proof {
            assert(orig.take(done) =~= orig);
        }
        let ghost errors_formulas = error_identifiers(errors@);
        let mut modules: Vec<Module<VariableReference, S, Expression<VariableReference, S>, A>> = Vec::new();
        let mut rest = self.modules.modules;
        let ghost orig = rest@;
        let ghost start = error_identifiers(errors@);
        let ghost done: int = 0;
        assert(orig == model.modules.modules@);
        assert(orig.skip(0) =~= orig);
        assert(orig.take(0) =~= Seq::empty());
        while rest.len() > 0
            invariant
                names == variable_names(variable_manager.variables@),
                0 <= done <= orig.len(),
                rest@ == orig.skip(done),
                error_identifiers(errors@) == start + concat_map(orig.take(done), module_errors::<S, A>(names)),
                concat_map(orig.take(done), module_errors::<S, A>(names)).len() == 0 ==> modules@.len() == done
                    && forall|j: int| 0 <= j < done ==> #[trigger] module_exprs_mapped(orig[j], modules@[j], target_indexed::<S>(names), expression_indexed::<S>(names)),
            decreases rest.len(),
        {
            proof {
                assert(orig.skip(done).drop_first() =~= orig.skip(done + 1));
                lemma_concat_map_take(orig, module_errors::<S, A>(names), done);
                lemma_concat_map_empty_prefix(orig, module_errors::<S, A>(names), done);
            }
            let x = rest.remove(0);
            let ghost before = error_identifiers(errors@);
            match index_module(x, variable_manager, &mut errors) {
                Some(y) => {
                    modules.push(y);
                },
                None => {},
            }
            proof {
                done = done + 1;
            }
        }
        proof {
            assert(orig.take(done) =~= orig);
        }
        let ghost errors_modules = error_identifiers(errors@);
        let init_constraint = match self.init_constraint {
            None => {
                assert(errors_modules + Seq::<Identifier<S>>::empty() =~= errors_modules);
                None
            },
            Some(init) => index_expression(init, variable_manager, &mut errors),
        };
        let ghost errors_init = error_identifiers(errors@);
        let mut labels: Vec<Label<S, Expression<VariableReference, S>>> = Vec::new();
        let mut rest = self.labels.labels;
        let ghost orig = rest@;
        let ghost start = error_identifiers(errors@);
        let ghost done: int = 0;
        assert(orig == model.labels.labels@);
        assert(orig.skip(0) =~= orig);
        assert(orig.take(0) =~= Seq::empty());
        while rest.len() > 0
            invariant
                names == variable_names(variable_manager.variables@),
                0 <= done <= orig.len(),
                rest@ == orig.skip(done),
                error_identifiers(errors@) == start + concat_map(orig.take(done), label_errors::<S>(names)),
                concat_map(orig.take(done), label_errors::<S>(names)).len() == 0 ==> labels@.len() == done
                    && forall|j: int| 0 <= j < done ==> #[trigger] label_exprs_mapped(orig[j], labels@[j], expression_indexed::<S>(names)),
            decreases rest.len(),
        {
            proof {
                assert(orig.skip(done).drop_first() =~= orig.skip(done + 1));
                lemma_concat_map_take(orig, label_errors::<S>(names), done);
                lemma_concat_map_empty_prefix(orig, label_errors::<S>(names), done);
            }
            let x = rest.remove(0);
            let ghost before = error_identifiers(errors@);
            match index_label(x, variable_manager, &mut errors) {
                Some(y) => {
                    labels.push(y);
                },
                None => {},
            }
            proof {
                done = done + 1;
            }
        }
        proof {
            assert(orig.take(done) =~= orig);
        }
        let ghost errors_labels = error_identifiers(errors@);
        let mut rewards: Vec<Rewards<S, Expression<VariableReference, S>, A>> = Vec::new();
        let mut rest = self.rewards.rewards;
        let ghost orig = rest@;
        let ghost start = error_identifiers(errors@);
        let ghost done: int = 0;
        assert(orig == model.rewards.rewards@);
        assert(orig.skip(0) =~= orig);
        assert(orig.take(0) =~= Seq::empty());
        while rest.len() > 0
            invariant
                names == variable_names(variable_manager.variables@),
                0 <= done <= orig.len(),
                rest@ == orig.skip(done),
                error_identifiers(errors@) == start + concat_map(orig.take(done), rewards_errors::<S, A>(names)),
                concat_map(orig.take(done), rewards_errors::<S, A>(names)).len() == 0 ==> rewards@.len() == done
                    && forall|j: int| 0 <= j < done ==> #[trigger] rewards_exprs_mapped(orig[j], rewards@[j], expression_indexed::<S>(names)),
            decreases rest.len(),
        {
            proof {
                assert(orig.skip(done).drop_first() =~= orig.skip(done + 1));
                lemma_concat_map_take(orig, rewards_errors::<S, A>(names), done);
                lemma_concat_map_empty_prefix(orig, rewards_errors::<S, A>(names), done);
            }
            let x = rest.remove(0);
            let ghost before = error_identifiers(errors@);
            match index_rewards(x, variable_manager, &mut errors) {
                Some(y) => {
                    rewards.push(y);
                },
                None => {},
            }
            proof {
                done = done + 1;
            }
        }
        proof {
            assert(orig.take(done) =~= orig);
        }
        proof {
            assert(error_identifiers(errors@) =~= model_errors(model));
            assert(error_identifiers(errors@).len() == errors@.len());
        }
        if errors.len() > 0 {
            return Err(errors);
        }
        let init_constraint = match init_constraint {
            Some(i) => Some(i),
            None => None,
        };
        Ok(Model {
            model_type: self.model_type,
            variable_manager: VariableManager { variables },
            formulas: FormulaManager { formulas },
            modules: ModuleManager { modules },
            renamed_modules: Vec::new(),
            init_constraint,
            labels: LabelManager { labels },
            rewards: RewardsManager { rewards },
            span: self.span,
        })
    }
}

} // verus!
