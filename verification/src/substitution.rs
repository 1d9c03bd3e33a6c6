use crate::expressions::{substituted, substituted_in_turn, variable_uses, Expression};
use crate::formula_dependencies::{
    dependency_graph, describes_cycle, has_dependency_cycle, is_replacement_ordering, lemma_reversed_expansion,
    reversed_order, CyclicDependency,
};
use crate::formulas::{formula_names, Formula, FormulaManager};
use crate::substitution_laws::{law_substitution_removes_formulas, uses_name};
use crate::identifier::Identifier;
use crate::labels::{Label, LabelManager};
use crate::spans::Span;
use vstd::prelude::*;

verus! {

/// The substitutions of the formulas in the given order: for each index, the formula's name and
/// its condition.
pub open spec fn formula_steps<S: Span>(
    formulas: Seq<Formula<S, Expression<Identifier<S>, S>>>,
    order: Seq<usize>,
) -> Seq<(Seq<char>, Expression<Identifier<S>, S>)> {
    order.map_values(|i: usize| (formulas[i as int].name.name@, formulas[i as int].condition))
}

/// The substitutions of the labels, in order: for each label, its name and its condition.
pub open spec fn label_steps<S: Span>(labels: Seq<Label<S, Expression<Identifier<S>, S>>>) -> Seq<
    (Seq<char>, Expression<Identifier<S>, S>),
> {
    labels.map_values(|l: Label<S, Expression<Identifier<S>, S>>| (l.name.name@, l.condition))
}

/// Extending a chain of substitutions by one step.
proof fn lemma_in_turn_push<S: Span>(
    chain: Seq<Expression<Identifier<S>, S>>,
    steps: Seq<(Seq<char>, Expression<Identifier<S>, S>)>,
    next: Expression<Identifier<S>, S>,
    step: (Seq<char>, Expression<Identifier<S>, S>),
    label: bool,
)
    requires
        chain.len() == steps.len() + 1,
        forall|k: int| 0 <= k < steps.len() ==> substituted(#[trigger] chain[k], chain[k + 1], steps[k].0, steps[k].1, label),
        substituted(chain.last(), next, step.0, step.1, label),
    ensures
        forall|k: int|
            0 <= k < steps.push(step).len() ==> substituted(
                #[trigger] chain.push(next)[k],
                chain.push(next)[k + 1],
                steps.push(step)[k].0,
                steps.push(step)[k].1,
                label,
            ),
{
    assert forall|k: int| 0 <= k < steps.push(step).len() implies substituted(
        #[trigger] chain.push(next)[k],
        chain.push(next)[k + 1],
        steps.push(step)[k].0,
        steps.push(step)[k].1,
        label,
    ) by {
        if k < steps.len() {
            assert(chain.push(next)[k] == chain[k]);
            assert(chain.push(next)[k + 1] == chain[k + 1]);
        } else {
            assert(chain.push(next)[k] == chain.last());
        }
    }
}

impl<S: Span> Expression<Identifier<S>, S> {
    /// Replaces every label of this expression by its condition, for each label of `labels` in
    /// turn.
    pub fn substitute_labels(&mut self, labels: &LabelManager<S, Expression<Identifier<S>, S>>)
        ensures
            substituted_in_turn(*old(self), *final(self), label_steps(labels.labels@), true),
    {
        let ghost steps = label_steps(labels.labels@);
        let ghost mut chain: Seq<Expression<Identifier<S>, S>> = seq![*self];
        let mut i: usize = 0;
        while i < labels.labels.len()
            invariant
                steps == label_steps(labels.labels@),
                i <= labels.labels@.len(),
                chain.len() == i + 1,
                chain[0] == *old(self),
                chain.last() == *self,
                forall|k: int| 0 <= k < i ==> substituted(#[trigger] chain[k], chain[k + 1], steps[k].0, steps[k].1, true),
            decreases labels.labels.len() - i,
        {
            let label = &labels.labels[i];
            let mut e = Expression::Bool(false, S::empty());
            std::mem::swap(&mut e, self);
            let r = e.substitute(&label.name, &label.condition, true);
            proof {
                lemma_in_turn_push(chain, steps.take(i as int), r, steps[i as int], true);
                assert(steps.take(i as int).push(steps[i as int]) =~= steps.take(i + 1));
                chain = chain.push(r);
            }
            *self = r;
            i = i + 1;
        }
        proof {
            assert(steps.take(i as int) =~= steps);
        }
    }

    /// Replaces every reference to a formula of `formulas` by the formula's condition,
    /// substituting the formulas in the reverse of the order of
    /// [`FormulaManager::get_formula_replacement_ordering`], so that references brought in by a
    /// substitution are replaced as well.
    ///
    /// Fails, leaving the expression unchanged, if the formulas depend on each other cyclically.
    pub fn substitute_formulas(
        &mut self,
        formulas: &FormulaManager<S, Expression<Identifier<S>, S>>,
    ) -> (r: Result<(), CyclicDependency<S>>)
        ensures
            r is Ok <==> !has_dependency_cycle(dependency_graph(formulas.formulas@)),
            r matches Err(c) ==> describes_cycle(
                formulas.formulas@,
                dependency_graph(formulas.formulas@),
                c.entries@,
            ) && *final(self) == *old(self),
            r is Ok ==> exists|order: Seq<usize>|
                is_replacement_ordering(dependency_graph(formulas.formulas@), order)
                    && substituted_in_turn(
                    *old(self),
                    *final(self),
                    formula_steps(formulas.formulas@, order),
                    false,
                ),
            r is Ok ==> forall|m: Seq<char>|
                #[trigger] formula_names(formulas.formulas@).contains(m) ==> !uses_name(
                    variable_uses(*final(self)),
                    m,
                ),
    {
        let expansion = match formulas.get_formula_replacement_ordering() {
            Ok(order) => order,
            Err(c) => {
                return Err(c);
            },
        };
        proof {
            lemma_reversed_expansion(dependency_graph(formulas.formulas@), expansion@);
        }
        let order = reversed_order(&expansion);
        let ghost g = dependency_graph(formulas.formulas@);
        let ghost steps = formula_steps(formulas.formulas@, order@);
        let ghost mut chain: Seq<Expression<Identifier<S>, S>> = seq![*self];
        let mut i: usize = 0;
        while i < order.len()
            invariant
                is_replacement_ordering(g, order@),
                g == dependency_graph(formulas.formulas@),
                steps == formula_steps(formulas.formulas@, order@),
                g.len() == formulas.formulas@.len(),
                i <= order@.len(),
                chain.len() == i + 1,
                chain[0] == *old(self),
                chain.last() == *self,
                forall|k: int| 0 <= k < i ==> substituted(#[trigger] chain[k], chain[k + 1], steps[k].0, steps[k].1, false),
            decreases order.len() - i,
        {
            let index = order[i];
            proof {
                assert(order@[i as int] < g.len());
            }
            let formula = &formulas.formulas[index];
            let mut e = Expression::Bool(false, S::empty());
            std::mem::swap(&mut e, self);
            let r = e.substitute(&formula.name, &formula.condition, false);
            proof {
                lemma_in_turn_push(chain, steps.take(i as int), r, steps[i as int], false);
                assert(steps.take(i as int).push(steps[i as int]) =~= steps.take(i + 1));
                chain = chain.push(r);
            }
            *self = r;
            i = i + 1;
        }
        proof {
            assert(steps.take(i as int) =~= steps);
            assert(substituted_in_turn(*old(self), *self, steps, false));
            assert(formulas.formulas@.len() == formulas.formulas.len());
            assert forall|m: Seq<char>| #[trigger] formula_names(formulas.formulas@).contains(m) implies !uses_name(
                variable_uses(*self),
                m,
            ) by {
                law_substitution_removes_formulas(formulas.formulas@, order@, *old(self), *self, m);
            }
        }
        Ok(())
    }
}

} // verus!
