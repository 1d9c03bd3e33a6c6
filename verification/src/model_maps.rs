use crate::command::{Assignment, Command, Update};
use crate::formulas::{Formula, FormulaManager};

use crate::labels::{Label, LabelManager};
use crate::model::{Model, ModelType};
use crate::module::{Module, ModuleManager, RenameRule, RenameRules, RenamedModule};
use crate::rewards::{Rewards, RewardsElement, RewardsManager, RewardsTarget};
use crate::spans::Span;
use crate::expressions::Duplicate;
use crate::variables::{VariableInfo, VariableManager, VariableRange};
use vstd::prelude::*;

verus! {

/// The relation "equal".
pub open spec fn same<T>() -> spec_fn(T, T) -> bool {
    |a: T, b: T| a == b
}

/// The relation "`b` is a value that `f` may return for `a`".
pub open spec fn calls<E, E2, F: Fn(E) -> E2>(f: F) -> spec_fn(E, E2) -> bool {
    |a: E, b: E2| call_ensures(f, (a,), b)
}

/// The relation "`b` is a value that `f` may return for a reference to `a`".
pub open spec fn calls_ref<E, E2, F: Fn(&E) -> E2>(f: F) -> spec_fn(E, E2) -> bool {
    |a: E, b: E2| call_ensures(f, (&a,), b)
}

/// `b` is `a` with its bounds related by `re`; spans are kept.
pub open spec fn range_exprs_mapped<S: Span, E, E2>(
    a: VariableRange<S, E>,
    b: VariableRange<S, E2>,
    re: spec_fn(E, E2) -> bool,
) -> bool {
    match (a, b) {
        (
            VariableRange::BoundedInt { min, max, span },
            VariableRange::BoundedInt { min: min2, max: max2, span: span2 },
        ) => re(min, min2) && re(max, max2) && span2 == span,
        (VariableRange::UnboundedInt { span }, VariableRange::UnboundedInt { span: span2 }) => span2 == span,
        (VariableRange::Boolean { span }, VariableRange::Boolean { span: span2 }) => span2 == span,
        (VariableRange::Float { span }, VariableRange::Float { span: span2 }) => span2 == span,
        _ => false,
    }
}

/// `b` is `a` with its expressions related by `re`; everything else is kept.
pub open spec fn info_exprs_mapped<S: Span, E, E2>(
    a: VariableInfo<S, E>,
    b: VariableInfo<S, E2>,
    re: spec_fn(E, E2) -> bool,
) -> bool {
    &&& b.name == a.name
    &&& range_exprs_mapped(a.range, b.range, re)
    &&& (a.initial_value is None <==> b.initial_value is None)
    &&& (a.initial_value matches Some(i) ==> re(i, b.initial_value->0))
    &&& b.span == a.span
    &&& b.is_constant == a.is_constant
    &&& b.scope == a.scope
}

/// `b` is `a` with its condition related by `re`.
pub open spec fn formula_exprs_mapped<S: Span, E, E2>(
    a: Formula<S, E>,
    b: Formula<S, E2>,
    re: spec_fn(E, E2) -> bool,
) -> bool {
    b.name == a.name && re(a.condition, b.condition) && b.span == a.span
}

/// `b` is `a` with its condition related by `re`.
pub open spec fn label_exprs_mapped<S: Span, E, E2>(
    a: Label<S, E>,
    b: Label<S, E2>,
    re: spec_fn(E, E2) -> bool,
) -> bool {
    b.name == a.name && re(a.condition, b.condition) && b.span == a.span
}

/// `b` is `a` with its target related by `rv` and its value by `re`.
pub open spec fn assignment_exprs_mapped<V, V2, S: Span, E, E2>(
    a: Assignment<V, S, E>,
    b: Assignment<V2, S, E2>,
    rv: spec_fn(V, V2) -> bool,
    re: spec_fn(E, E2) -> bool,
) -> bool {
    rv(a.target, b.target) && re(a.value, b.value) && b.target_span == a.target_span && b.span == a.span
}

/// `b` is `a` with its targets related by `rv` and its expressions by `re`.
pub open spec fn update_exprs_mapped<V, V2, S: Span, E, E2>(
    a: Update<V, S, E>,
    b: Update<V2, S, E2>,
    rv: spec_fn(V, V2) -> bool,
    re: spec_fn(E, E2) -> bool,
) -> bool {
    &&& re(a.probability, b.probability)
    &&& b.assignments@.len() == a.assignments@.len()
    &&& forall|i: int|
        0 <= i < a.assignments@.len() ==> #[trigger] assignment_exprs_mapped(
            a.assignments@[i],
            b.assignments@[i],
            rv,
            re,
        )
    &&& b.span == a.span
}

/// `b` is `a` with its targets related by `rv` and its expressions by `re`.
pub open spec fn command_exprs_mapped<V, V2, S: Span, E, E2, A>(
    a: Command<V, S, E, A>,
    b: Command<V2, S, E2, A>,
    rv: spec_fn(V, V2) -> bool,
    re: spec_fn(E, E2) -> bool,
) -> bool {
    &&& b.action == a.action
    &&& b.action_span == a.action_span
    &&& re(a.guard, b.guard)
    &&& b.updates@.len() == a.updates@.len()
    &&& forall|i: int|
        0 <= i < a.updates@.len() ==> #[trigger] update_exprs_mapped(a.updates@[i], b.updates@[i], rv, re)
    &&& b.span == a.span
}

/// `b` is `a` with its targets related by `rv` and its expressions by `re`.
pub open spec fn module_exprs_mapped<V, V2, S: Span, E, E2, A>(
    a: Module<V, S, E, A>,
    b: Module<V2, S, E2, A>,
    rv: spec_fn(V, V2) -> bool,
    re: spec_fn(E, E2) -> bool,
) -> bool {
    &&& b.name == a.name
    &&& b.commands@.len() == a.commands@.len()
    &&& forall|i: int|
        0 <= i < a.commands@.len() ==> #[trigger] command_exprs_mapped(a.commands@[i], b.commands@[i], rv, re)
    &&& b.span == a.span
}

/// `b` is `a` with its expressions related by `re`.
pub open spec fn element_exprs_mapped<S: Span, E, E2, A>(
    a: RewardsElement<S, E, A>,
    b: RewardsElement<S, E2, A>,
    re: spec_fn(E, E2) -> bool,
) -> bool {
    re(a.condition, b.condition) && re(a.value, b.value) && b.target == a.target && b.span == a.span
}

/// `b` is `a` with its expressions related by `re`.
pub open spec fn rewards_exprs_mapped<S: Span, E, E2, A>(
    a: Rewards<S, E, A>,
    b: Rewards<S, E2, A>,
    re: spec_fn(E, E2) -> bool,
) -> bool {
    &&& b.name == a.name
    &&& b.entries@.len() == a.entries@.len()
    &&& forall|i: int|
        0 <= i < a.entries@.len() ==> #[trigger] element_exprs_mapped(a.entries@[i], b.entries@[i], re)
    &&& b.span == a.span
}

/// `b` is a copy of `a`.
pub open spec fn renamed_module_copied<S: Span>(a: RenamedModule<S>, b: RenamedModule<S>) -> bool {
    b.old_name == a.old_name && b.new_name == a.new_name && b.rename_rules.rules@ == a.rename_rules.rules@
        && b.span == a.span
}

/// `b` is the model `a` with its assignment targets related by `rv` and its expressions (variable
/// bounds and initial values, guards, probabilities, assigned values, init constraint, labels and
/// rewards) by `re`; everything else but the formulas is kept.
pub open spec fn model_parts_mapped<V, V2, S: Span, E, E2, A>(
    a: Model<V, S, E, A>,
    b: Model<V2, S, E2, A>,
    rv: spec_fn(V, V2) -> bool,
    re: spec_fn(E, E2) -> bool,
) -> bool {
    &&& b.model_type == a.model_type
    &&& b.variable_manager.variables@.len() == a.variable_manager.variables@.len()
    &&& (forall|i: int|
        0 <= i < a.variable_manager.variables@.len() ==> #[trigger] info_exprs_mapped(
            a.variable_manager.variables@[i],
            b.variable_manager.variables@[i],
            re,
        ))
    &&& b.modules.modules@.len() == a.modules.modules@.len()
    &&& (forall|i: int|
        0 <= i < a.modules.modules@.len() ==> #[trigger] module_exprs_mapped(
            a.modules.modules@[i],
            b.modules.modules@[i],
            rv,
            re,
        ))
    &&& b.renamed_modules@.len() == a.renamed_modules@.len()
    &&& (forall|i: int|
        0 <= i < a.renamed_modules@.len() ==> #[trigger] renamed_module_copied(
            a.renamed_modules@[i],
            b.renamed_modules@[i],
        ))
    &&& (a.init_constraint is None <==> b.init_constraint is None)
    &&& (a.init_constraint matches Some(i) ==> re(i, b.init_constraint->0))
    &&& b.labels.labels@.len() == a.labels.labels@.len()
    &&& (forall|i: int|
        0 <= i < a.labels.labels@.len() ==> #[trigger] label_exprs_mapped(
            a.labels.labels@[i],
            b.labels.labels@[i],
            re,
        ))
    &&& b.rewards.rewards@.len() == a.rewards.rewards@.len()
    &&& (forall|i: int|
        0 <= i < a.rewards.rewards@.len() ==> #[trigger] rewards_exprs_mapped(
            a.rewards.rewards@[i],
            b.rewards.rewards@[i],
            re,
        ))
    &&& b.span == a.span
}

/// `b` is the model `a` with its assignment targets related by `rv` and its expressions (variable
/// bounds and initial values, formulas, guards, probabilities, assigned values, init constraint,
/// labels and rewards) by `re`; everything else is kept.
pub open spec fn model_exprs_mapped<V, V2, S: Span, E, E2, A>(
    a: Model<V, S, E, A>,
    b: Model<V2, S, E2, A>,
    rv: spec_fn(V, V2) -> bool,
    re: spec_fn(E, E2) -> bool,
) -> bool {
    &&& model_parts_mapped(a, b, rv, re)
    &&& b.formulas.formulas@.len() == a.formulas.formulas@.len()
    &&& (forall|i: int|
        0 <= i < a.formulas.formulas@.len() ==> #[trigger] formula_exprs_mapped(
            a.formulas.formulas@[i],
            b.formulas.formulas@[i],
            re,
        ))
}

/// A weaker relation between expressions relates the same parts of two models.
pub proof fn lemma_model_parts_weaken<V, V2, S: Span, E, E2, A>(
    a: Model<V, S, E, A>,
    b: Model<V2, S, E2, A>,
    rv: spec_fn(V, V2) -> bool,
    re: spec_fn(E, E2) -> bool,
    re2: spec_fn(E, E2) -> bool,
)
    requires
        model_parts_mapped(a, b, rv, re),
        forall|x: E, y: E2| #[trigger] re(x, y) ==> re2(x, y),
    ensures
        model_parts_mapped(a, b, rv, re2),
{
    assert forall|i: int| 0 <= i < a.variable_manager.variables@.len() implies #[trigger] info_exprs_mapped(
        a.variable_manager.variables@[i],
        b.variable_manager.variables@[i],
        re2,
    ) by {
        assert(info_exprs_mapped(a.variable_manager.variables@[i], b.variable_manager.variables@[i], re));
    }
    assert forall|i: int| 0 <= i < a.modules.modules@.len() implies #[trigger] module_exprs_mapped(
        a.modules.modules@[i],
        b.modules.modules@[i],
        rv,
        re2,
    ) by {
        let m = a.modules.modules@[i];
        let n = b.modules.modules@[i];
        assert(module_exprs_mapped(m, n, rv, re));
        assert forall|c: int| 0 <= c < m.commands@.len() implies #[trigger] command_exprs_mapped(
            m.commands@[c],
            n.commands@[c],
            rv,
            re2,
        ) by {
            let x = m.commands@[c];
            let y = n.commands@[c];
            assert(command_exprs_mapped(x, y, rv, re));
            assert forall|u: int| 0 <= u < x.updates@.len() implies #[trigger] update_exprs_mapped(
                x.updates@[u],
                y.updates@[u],
                rv,
                re2,
            ) by {
                let p = x.updates@[u];
                let q = y.updates@[u];
                assert(update_exprs_mapped(p, q, rv, re));
                assert forall|k: int| 0 <= k < p.assignments@.len() implies #[trigger] assignment_exprs_mapped(
                    p.assignments@[k],
                    q.assignments@[k],
                    rv,
                    re2,
                ) by {
                    assert(assignment_exprs_mapped(p.assignments@[k], q.assignments@[k], rv, re));
                }
            }
        }
    }
    assert forall|i: int| 0 <= i < a.labels.labels@.len() implies #[trigger] label_exprs_mapped(
        a.labels.labels@[i],
        b.labels.labels@[i],
        re2,
    ) by {
        assert(label_exprs_mapped(a.labels.labels@[i], b.labels.labels@[i], re));
    }
    assert forall|i: int| 0 <= i < a.rewards.rewards@.len() implies #[trigger] rewards_exprs_mapped(
        a.rewards.rewards@[i],
        b.rewards.rewards@[i],
        re2,
    ) by {
        let x = a.rewards.rewards@[i];
        let y = b.rewards.rewards@[i];
        assert(rewards_exprs_mapped(x, y, re));
        assert forall|k: int| 0 <= k < x.entries@.len() implies #[trigger] element_exprs_mapped(
            x.entries@[k],
            y.entries@[k],
            re2,
        ) by {
            assert(element_exprs_mapped(x.entries@[k], y.entries@[k], re));
        }
    }
}

fn range_into<S: Span, E, E2, F: Fn(E) -> E2>(r: VariableRange<S, E>, f: &F) -> (out: VariableRange<S, E2>)
        requires
            forall|e: E| #[trigger] call_requires(*f, (e,)),
    ensures
        range_exprs_mapped(r, out, calls(*f)),
{
    match r {
        VariableRange::BoundedInt { min, max, span } => VariableRange::BoundedInt { min: f(min), max: f(max), span },
        VariableRange::UnboundedInt { span } => VariableRange::UnboundedInt { span },
        VariableRange::Boolean { span } => VariableRange::Boolean { span },
        VariableRange::Float { span } => VariableRange::Float { span },
    }
}

fn info_into<S: Span, E, E2, F: Fn(E) -> E2>(v: VariableInfo<S, E>, f: &F) -> (out: VariableInfo<S, E2>)
        requires
            forall|e: E| #[trigger] call_requires(*f, (e,)),
    ensures
        info_exprs_mapped(v, out, calls(*f)),
{
    let initial_value = match v.initial_value {
        Some(i) => Some(f(i)),
        None => None,
    };
    VariableInfo {
        name: v.name,
        range: range_into(v.range, f),
        initial_value,
        span: v.span,
        is_constant: v.is_constant,
        scope: v.scope,
    }
}

fn assignment_into<V, S: Span, E, E2, F: Fn(E) -> E2>(a: Assignment<V, S, E>, f: &F) -> (out: Assignment<V, S, E2>)
        requires
            forall|e: E| #[trigger] call_requires(*f, (e,)),
    ensures
        assignment_exprs_mapped(a, out, same(), calls(*f)),
{
    Assignment { target: a.target, value: f(a.value), target_span: a.target_span, span: a.span }
}

fn update_into<V, S: Span, E, E2, F: Fn(E) -> E2>(u: Update<V, S, E>, f: &F) -> (out: Update<V, S, E2>)
        requires
            forall|e: E| #[trigger] call_requires(*f, (e,)),
    ensures
        update_exprs_mapped(u, out, same(), calls(*f)),
{
        let mut assignments: Vec<Assignment<V, S, E2>> = Vec::new();
        let mut rest = u.assignments;
        let ghost orig = rest@;
        assert(orig.skip(0) =~= orig);
        while rest.len() > 0
            invariant
                forall|e: E| #[trigger] call_requires(*f, (e,)),
                assignments@.len() <= orig.len(),
                rest@ == orig.skip(assignments@.len() as int),
                forall|j: int| 0 <= j < assignments@.len() ==> #[trigger] assignment_exprs_mapped(orig[j], assignments@[j], same(), calls(*f)),
            decreases rest.len(),
        {
            let ghost k = assignments@.len() as int;
            proof {
                assert(orig.skip(k).drop_first() =~= orig.skip(k + 1));
            }
            let x = rest.remove(0);
            assignments.push(assignment_into(x, f));
        }
    Update { probability: f(u.probability), assignments, span: u.span }
}

fn command_into<V, S: Span, E, E2, A, F: Fn(E) -> E2>(c: Command<V, S, E, A>, f: &F) -> (out: Command<V, S, E2, A>)
        requires
            forall|e: E| #[trigger] call_requires(*f, (e,)),
    ensures
        command_exprs_mapped(c, out, same(), calls(*f)),
{
        let mut updates: Vec<Update<V, S, E2>> = Vec::new();
        let mut rest = c.updates;
        let ghost orig = rest@;
        assert(orig.skip(0) =~= orig);
        while rest.len() > 0
            invariant
                forall|e: E| #[trigger] call_requires(*f, (e,)),
                updates@.len() <= orig.len(),
                rest@ == orig.skip(updates@.len() as int),
                forall|j: int| 0 <= j < updates@.len() ==> #[trigger] update_exprs_mapped(orig[j], updates@[j], same(), calls(*f)),
            decreases rest.len(),
        {
            let ghost k = updates@.len() as int;
            proof {
                assert(orig.skip(k).drop_first() =~= orig.skip(k + 1));
            }
            let x = rest.remove(0);
            updates.push(update_into(x, f));
        }
    Command { action: c.action, action_span: c.action_span, guard: f(c.guard), updates, span: c.span }
}

fn module_into<V, S: Span, E, E2, A, F: Fn(E) -> E2>(m: Module<V, S, E, A>, f: &F) -> (out: Module<V, S, E2, A>)
        requires
            forall|e: E| #[trigger] call_requires(*f, (e,)),
    ensures
        module_exprs_mapped(m, out, same(), calls(*f)),
{
        let mut commands: Vec<Command<V, S, E2, A>> = Vec::new();
        let mut rest = m.commands;
        let ghost orig = rest@;
        assert(orig.skip(0) =~= orig);
        while rest.len() > 0
            invariant
                forall|e: E| #[trigger] call_requires(*f, (e,)),
                commands@.len() <= orig.len(),
                rest@ == orig.skip(commands@.len() as int),
                forall|j: int| 0 <= j < commands@.len() ==> #[trigger] command_exprs_mapped(orig[j], commands@[j], same(), calls(*f)),
            decreases rest.len(),
        {
            let ghost k = commands@.len() as int;
            proof {
                assert(orig.skip(k).drop_first() =~= orig.skip(k + 1));
            }
            let x = rest.remove(0);
            commands.push(command_into(x, f));
        }
    Module { name: m.name, commands, span: m.span }
}

fn rewards_into<S: Span, E, E2, A, F: Fn(E) -> E2>(r: Rewards<S, E, A>, f: &F) -> (out: Rewards<S, E2, A>)
        requires
            forall|e: E| #[trigger] call_requires(*f, (e,)),
    ensures
        rewards_exprs_mapped(r, out, calls(*f)),
{
        let mut entries: Vec<RewardsElement<S, E2, A>> = Vec::new();
        let mut rest = r.entries;
        let ghost orig = rest@;
        assert(orig.skip(0) =~= orig);
        while rest.len() > 0
            invariant
                forall|e: E| #[trigger] call_requires(*f, (e,)),
                entries@.len() <= orig.len(),
                rest@ == orig.skip(entries@.len() as int),
                forall|j: int| 0 <= j < entries@.len() ==> #[trigger] element_exprs_mapped(orig[j], entries@[j], calls(*f)),
            decreases rest.len(),
        {
            let ghost k = entries@.len() as int;
            proof {
                assert(orig.skip(k).drop_first() =~= orig.skip(k + 1));
            }
            let x = rest.remove(0);
            entries.push(RewardsElement { condition: f(x.condition), value: f(x.value), target: x.target, span: x.span });
        }
    Rewards { name: r.name, entries, span: r.span }
}

impl<V, S: Span, E, A> Model<V, S, E, A> {
    /// Applies `f` to every expression of the model (variable bounds and initial values,
    /// formulas, guards, probabilities, assigned values, init constraint, labels and rewards),
    /// consuming the model and building one over the new expression type.
    pub fn map_expressions_into<E2, F: Fn(E) -> E2>(self, f: F) -> (r: Model<V, S, E2, A>)
        requires
            forall|e: E| #[trigger] call_requires(f, (e,)),
        ensures
            model_exprs_mapped(self, r, same(), calls(f)),
    {
        let f = &f;
        let mut variables: Vec<VariableInfo<S, E2>> = Vec::new();
        let mut rest = self.variable_manager.variables;
        let ghost orig = rest@;
        assert(orig.skip(0) =~= orig);
        while rest.len() > 0
            invariant
                forall|e: E| #[trigger] call_requires(*f, (e,)),
                variables@.len() <= orig.len(),
                rest@ == orig.skip(variables@.len() as int),
                forall|j: int| 0 <= j < variables@.len() ==> #[trigger] info_exprs_mapped(orig[j], variables@[j], calls(*f)),
            decreases rest.len(),
        {
            let ghost k = variables@.len() as int;
            proof {
                assert(orig.skip(k).drop_first() =~= orig.skip(k + 1));
            }
            let x = rest.remove(0);
            variables.push(info_into(x, f));
        }
        let mut formulas: Vec<Formula<S, E2>> = Vec::new();
        let mut rest = self.formulas.formulas;
        let ghost orig = rest@;
        assert(orig.skip(0) =~= orig);
        while rest.len() > 0
            invariant
                forall|e: E| #[trigger] call_requires(*f, (e,)),
                formulas@.len() <= orig.len(),
                rest@ == orig.skip(formulas@.len() as int),
                forall|j: int| 0 <= j < formulas@.len() ==> #[trigger] formula_exprs_mapped(orig[j], formulas@[j], calls(*f)),
            decreases rest.len(),
        {
            let ghost k = formulas@.len() as int;
            proof {
                assert(orig.skip(k).drop_first() =~= orig.skip(k + 1));
            }
            let x = rest.remove(0);
            formulas.push(Formula { name: x.name, condition: f(x.condition), span: x.span });
        }
        let mut modules: Vec<Module<V, S, E2, A>> = Vec::new();
        let mut rest = self.modules.modules;
        let ghost orig = rest@;
        assert(orig.skip(0) =~= orig);
        while rest.len() > 0
            invariant
                forall|e: E| #[trigger] call_requires(*f, (e,)),
                modules@.len() <= orig.len(),
                rest@ == orig.skip(modules@.len() as int),
                forall|j: int| 0 <= j < modules@.len() ==> #[trigger] module_exprs_mapped(orig[j], modules@[j], same(), calls(*f)),
            decreases rest.len(),
        {
            let ghost k = modules@.len() as int;
            proof {
                assert(orig.skip(k).drop_first() =~= orig.skip(k + 1));
            }
            let x = rest.remove(0);
            modules.push(module_into(x, f));
        }
        let mut labels: Vec<Label<S, E2>> = Vec::new();
        let mut rest = self.labels.labels;
        let ghost orig = rest@;
        assert(orig.skip(0) =~= orig);
        while rest.len() > 0
            invariant
                forall|e: E| #[trigger] call_requires(*f, (e,)),
                labels@.len() <= orig.len(),
                rest@ == orig.skip(labels@.len() as int),
                forall|j: int| 0 <= j < labels@.len() ==> #[trigger] label_exprs_mapped(orig[j], labels@[j], calls(*f)),
            decreases rest.len(),
        {
            let ghost k = labels@.len() as int;
            proof {
                assert(orig.skip(k).drop_first() =~= orig.skip(k + 1));
            }
            let x = rest.remove(0);
            labels.push(Label { name: x.name, condition: f(x.condition), span: x.span });
        }
        let mut rewards: Vec<Rewards<S, E2, A>> = Vec::new();
        let mut rest = self.rewards.rewards;
        let ghost orig = rest@;
        assert(orig.skip(0) =~= orig);
        while rest.len() > 0
            invariant
                forall|e: E| #[trigger] call_requires(*f, (e,)),
                rewards@.len() <= orig.len(),
                rest@ == orig.skip(rewards@.len() as int),
                forall|j: int| 0 <= j < rewards@.len() ==> #[trigger] rewards_exprs_mapped(orig[j], rewards@[j], calls(*f)),
            decreases rest.len(),
        {
            let ghost k = rewards@.len() as int;
            proof {
                assert(orig.skip(k).drop_first() =~= orig.skip(k + 1));
            }
            let x = rest.remove(0);
            rewards.push(rewards_into(x, f));
        }
        let init_constraint = match self.init_constraint {
            Some(i) => Some(f(i)),
            None => None,
        };
        let r = Model {
            model_type: self.model_type,
            variable_manager: VariableManager { variables },
            formulas: FormulaManager { formulas },
            modules: ModuleManager { modules },
            renamed_modules: self.renamed_modules,
            init_constraint,
            labels: LabelManager { labels },
            rewards: RewardsManager { rewards },
            span: self.span,
        };
        r
    }
}

fn range_cloned<S: Span, E, E2, F: Fn(&E) -> E2>(r: &VariableRange<S, E>, f: &F) -> (out: VariableRange<S, E2>)
        requires
            forall|e: E| #[trigger] call_requires(*f, (&e,)),
    ensures
        range_exprs_mapped(*r, out, calls_ref(*f)),
{
    match r {
        VariableRange::BoundedInt { min, max, span } => VariableRange::BoundedInt {
            min: f(min),
            max: f(max),
            span: span.duplicate(),
        },
        VariableRange::UnboundedInt { span } => VariableRange::UnboundedInt { span: span.duplicate() },
        VariableRange::Boolean { span } => VariableRange::Boolean { span: span.duplicate() },
        VariableRange::Float { span } => VariableRange::Float { span: span.duplicate() },
    }
}

fn info_cloned<S: Span, E, E2, F: Fn(&E) -> E2>(v: &VariableInfo<S, E>, f: &F) -> (out: VariableInfo<S, E2>)
        requires
            forall|e: E| #[trigger] call_requires(*f, (&e,)),
    ensures
        info_exprs_mapped(*v, out, calls_ref(*f)),
{
    let initial_value = match &v.initial_value {
        Some(i) => Some(f(i)),
        None => None,
    };
    VariableInfo {
        name: v.name.duplicate(),
        range: range_cloned(&v.range, f),
        initial_value,
        span: v.span.duplicate(),
        is_constant: v.is_constant,
        scope: v.scope,
    }
}

fn assignment_cloned<V: Duplicate, S: Span, E, E2, F: Fn(&E) -> E2>(a: &Assignment<V, S, E>, f: &F) -> (out: Assignment<V, S, E2>)
        requires
            forall|e: E| #[trigger] call_requires(*f, (&e,)),
    ensures
        assignment_exprs_mapped(*a, out, same(), calls_ref(*f)),
{
    Assignment {
        target: a.target.duplicate(),
        value: f(&a.value),
        target_span: a.target_span.duplicate(),
        span: a.span.duplicate(),
    }
}

fn update_cloned<V: Duplicate, S: Span, E, E2, F: Fn(&E) -> E2>(u: &Update<V, S, E>, f: &F) -> (out: Update<V, S, E2>)
        requires
            forall|e: E| #[trigger] call_requires(*f, (&e,)),
    ensures
        update_exprs_mapped(*u, out, same(), calls_ref(*f)),
{
        let mut assignments: Vec<Assignment<V, S, E2>> = Vec::new();
        let mut i: usize = 0;
        while i < u.assignments.len()
            invariant
                forall|e: E| #[trigger] call_requires(*f, (&e,)),
                i <= u.assignments@.len(),
                assignments@.len() == i,
                forall|j: int| 0 <= j < i ==> #[trigger] assignment_exprs_mapped(u.assignments@[j], assignments@[j], same(), calls_ref(*f)),
            decreases u.assignments.len() - i,
        {
            assignments.push(assignment_cloned(&u.assignments[i], f));
            i = i + 1;
        }
    Update { probability: f(&u.probability), assignments, span: u.span.duplicate() }
}

fn command_cloned<V: Duplicate, S: Span, E, E2, A: Duplicate, F: Fn(&E) -> E2>(c: &Command<V, S, E, A>, f: &F) -> (out: Command<V, S, E2, A>)
        requires
            forall|e: E| #[trigger] call_requires(*f, (&e,)),
    ensures
        command_exprs_mapped(*c, out, same(), calls_ref(*f)),
{
        let mut updates: Vec<Update<V, S, E2>> = Vec::new();
        let mut i: usize = 0;
        while i < c.updates.len()
            invariant
                forall|e: E| #[trigger] call_requires(*f, (&e,)),
                i <= c.updates@.len(),
                updates@.len() == i,
                forall|j: int| 0 <= j < i ==> #[trigger] update_exprs_mapped(c.updates@[j], updates@[j], same(), calls_ref(*f)),
            decreases c.updates.len() - i,
        {
            updates.push(update_cloned(&c.updates[i], f));
            i = i + 1;
        }
    let action = match &c.action {
        Some(a) => Some(a.duplicate()),
        None => None,
    };
    Command { action, action_span: c.action_span.duplicate(), guard: f(&c.guard), updates, span: c.span.duplicate() }
}

fn module_cloned<V: Duplicate, S: Span, E, E2, A: Duplicate, F: Fn(&E) -> E2>(m: &Module<V, S, E, A>, f: &F) -> (out: Module<V, S, E2, A>)
        requires
            forall|e: E| #[trigger] call_requires(*f, (&e,)),
    ensures
        module_exprs_mapped(*m, out, same(), calls_ref(*f)),
{
        let mut commands: Vec<Command<V, S, E2, A>> = Vec::new();
        let mut i: usize = 0;
        while i < m.commands.len()
            invariant
                forall|e: E| #[trigger] call_requires(*f, (&e,)),
                i <= m.commands@.len(),
                commands@.len() == i,
                forall|j: int| 0 <= j < i ==> #[trigger] command_exprs_mapped(m.commands@[j], commands@[j], same(), calls_ref(*f)),
            decreases m.commands.len() - i,
        {
            commands.push(command_cloned(&m.commands[i], f));
            i = i + 1;
        }
    Module { name: m.name.duplicate(), commands, span: m.span.duplicate() }
}

fn target_cloned<A: Duplicate>(t: &RewardsTarget<A>) -> (out: RewardsTarget<A>)
    ensures
        out == *t,
{
    match t {
        RewardsTarget::State => RewardsTarget::State,
        RewardsTarget::Action(Some(a)) => RewardsTarget::Action(Some(a.duplicate())),
        RewardsTarget::Action(None) => RewardsTarget::Action(None),
    }
}

fn element_cloned<S: Span, E, E2, A: Duplicate, F: Fn(&E) -> E2>(e: &RewardsElement<S, E, A>, f: &F) -> (out: RewardsElement<S, E2, A>)
        requires
            forall|e: E| #[trigger] call_requires(*f, (&e,)),
    ensures
        element_exprs_mapped(*e, out, calls_ref(*f)),
{
    RewardsElement {
        condition: f(&e.condition),
        value: f(&e.value),
        target: target_cloned(&e.target),
        span: e.span.duplicate(),
    }
}

fn rewards_cloned<S: Span, E, E2, A: Duplicate, F: Fn(&E) -> E2>(r: &Rewards<S, E, A>, f: &F) -> (out: Rewards<S, E2, A>)
        requires
            forall|e: E| #[trigger] call_requires(*f, (&e,)),
    ensures
        rewards_exprs_mapped(*r, out, calls_ref(*f)),
{
        let mut entries: Vec<RewardsElement<S, E2, A>> = Vec::new();
        let mut i: usize = 0;
        while i < r.entries.len()
            invariant
                forall|e: E| #[trigger] call_requires(*f, (&e,)),
                i <= r.entries@.len(),
                entries@.len() == i,
                forall|j: int| 0 <= j < i ==> #[trigger] element_exprs_mapped(r.entries@[j], entries@[j], calls_ref(*f)),
            decreases r.entries.len() - i,
        {
            entries.push(element_cloned(&r.entries[i], f));
            i = i + 1;
        }
    let name = match &r.name {
        Some(n) => Some(n.duplicate()),
        None => None,
    };
    Rewards { name, entries, span: r.span.duplicate() }
}

/// Returns a copy of a renamed module.
pub fn renamed_module_copy<S: Span>(m: &RenamedModule<S>) -> (out: RenamedModule<S>)
    ensures
        renamed_module_copied(*m, out),
{
    let mut rules: Vec<RenameRule<S>> = Vec::new();
    let mut i: usize = 0;
    while i < m.rename_rules.rules.len()
        invariant
            i <= m.rename_rules.rules@.len(),
            rules@ == m.rename_rules.rules@.take(i as int),
        decreases m.rename_rules.rules.len() - i,
    {
        let rule = &m.rename_rules.rules[i];
        rules.push(RenameRule {
            old_name: rule.old_name.duplicate(),
            new_name: rule.new_name.duplicate(),
            span: rule.span.duplicate(),
        });
        proof {
            assert(rules@ =~= m.rename_rules.rules@.take(i + 1));
        }
        i = i + 1;
    }
    proof {
        assert(m.rename_rules.rules@.take(i as int) =~= m.rename_rules.rules@);
    }
    RenamedModule {
        old_name: m.old_name.duplicate(),
        new_name: m.new_name.duplicate(),
        rename_rules: RenameRules { rules },
        span: m.span.duplicate(),
    }
}

impl<V: Duplicate, S: Span, E, A: Duplicate> Model<V, S, E, A> {
    /// Builds a copy of the model in which every expression `e` is replaced by `f(&e)`; the
    /// model itself is left as it is.
    pub fn map_expressions_cloned<E2, F: Fn(&E) -> E2>(&self, f: F) -> (r: Model<V, S, E2, A>)
        requires
            forall|e: E| #[trigger] call_requires(f, (&e,)),
        ensures
            model_exprs_mapped(*self, r, same(), calls_ref(f)),
    {
        let f = &f;
        let mut variables: Vec<VariableInfo<S, E2>> = Vec::new();
        let mut i: usize = 0;
        while i < self.variable_manager.variables.len()
            invariant
                forall|e: E| #[trigger] call_requires(*f, (&e,)),
                i <= self.variable_manager.variables@.len(),
                variables@.len() == i,
                forall|j: int| 0 <= j < i ==> #[trigger] info_exprs_mapped(self.variable_manager.variables@[j], variables@[j], calls_ref(*f)),
            decreases self.variable_manager.variables.len() - i,
        {
            variables.push(info_cloned(&self.variable_manager.variables[i], f));
            i = i + 1;
        }
        let mut formulas: Vec<Formula<S, E2>> = Vec::new();
        let mut i: usize = 0;
        while i < self.formulas.formulas.len()
            invariant
                forall|e: E| #[trigger] call_requires(*f, (&e,)),
                i <= self.formulas.formulas@.len(),
                formulas@.len() == i,
                forall|j: int| 0 <= j < i ==> #[trigger] formula_exprs_mapped(self.formulas.formulas@[j], formulas@[j], calls_ref(*f)),
            decreases self.formulas.formulas.len() - i,
        {
            formulas.push(Formula { name: (&self.formulas.formulas[i]).name.duplicate(), condition: f(&(&self.formulas.formulas[i]).condition), span: (&self.formulas.formulas[i]).span.duplicate() });
            i = i + 1;
        }
        let mut modules: Vec<Module<V, S, E2, A>> = Vec::new();
        let mut i: usize = 0;
        while i < self.modules.modules.len()
            invariant
                forall|e: E| #[trigger] call_requires(*f, (&e,)),
                i <= self.modules.modules@.len(),
                modules@.len() == i,
                forall|j: int| 0 <= j < i ==> #[trigger] module_exprs_mapped(self.modules.modules@[j], modules@[j], same(), calls_ref(*f)),
            decreases self.modules.modules.len() - i,
        {
            modules.push(module_cloned(&self.modules.modules[i], f));
            i = i + 1;
        }
        let mut renamed_modules: Vec<RenamedModule<S>> = Vec::new();
        let mut i: usize = 0;
        while i < self.renamed_modules.len()
            invariant
                i <= self.renamed_modules@.len(),
                renamed_modules@.len() == i,
                forall|j: int| 0 <= j < i ==> #[trigger] renamed_module_copied(self.renamed_modules@[j], renamed_modules@[j]),
            decreases self.renamed_modules.len() - i,
        {
            renamed_modules.push(renamed_module_copy(&self.renamed_modules[i]));
            i = i + 1;
        }
        let mut labels: Vec<Label<S, E2>> = Vec::new();
        let mut i: usize = 0;
        while i < self.labels.labels.len()
            invariant
                forall|e: E| #[trigger] call_requires(*f, (&e,)),
                i <= self.labels.labels@.len(),
                labels@.len() == i,
                forall|j: int| 0 <= j < i ==> #[trigger] label_exprs_mapped(self.labels.labels@[j], labels@[j], calls_ref(*f)),
            decreases self.labels.labels.len() - i,
        {
            labels.push(Label { name: (&self.labels.labels[i]).name.duplicate(), condition: f(&(&self.labels.labels[i]).condition), span: (&self.labels.labels[i]).span.duplicate() });
            i = i + 1;
        }
        let mut rewards: Vec<Rewards<S, E2, A>> = Vec::new();
        let mut i: usize = 0;
        while i < self.rewards.rewards.len()
            invariant
                forall|e: E| #[trigger] call_requires(*f, (&e,)),
                i <= self.rewards.rewards@.len(),
                rewards@.len() == i,
                forall|j: int| 0 <= j < i ==> #[trigger] rewards_exprs_mapped(self.rewards.rewards@[j], rewards@[j], calls_ref(*f)),
            decreases self.rewards.rewards.len() - i,
        {
            rewards.push(rewards_cloned(&self.rewards.rewards[i], f));
            i = i + 1;
        }
        let init_constraint = match &self.init_constraint {
            Some(i) => Some(f(i)),
            None => None,
        };
        Model {
            model_type: self.model_type.duplicate_type(),
            variable_manager: VariableManager { variables },
            formulas: FormulaManager { formulas },
            modules: ModuleManager { modules },
            renamed_modules,
            init_constraint,
            labels: LabelManager { labels },
            rewards: RewardsManager { rewards },
            span: self.span.duplicate(),
        }
    }
}

impl<V, S: Span, E, A> Model<V, S, E, A> {
    /// Replaces every expression `e` of the model (variable bounds and initial values, formulas,
    /// guards, probabilities, assigned values, init constraint, labels and rewards) by `f(e)`.
    pub fn map_expressions<F: Fn(E) -> E>(&mut self, f: F)
        requires
            forall|e: E| #[trigger] call_requires(f, (e,)),
        ensures
            model_exprs_mapped(*old(self), *final(self), same(), calls(f)),
    {
        let mut m = Model::new_spanned(ModelType::Dtmc(S::empty()), S::empty());
        std::mem::swap(&mut m, self);
        *self = m.map_expressions_into(f);
    }
}

} // verus!
