//! Prepares a query for a model: labels and formulas substituted, variables referred to by index.
use crate::expressions::{mapped, substituted_in_turn, Expression, UnknownVariableError};
use crate::formula_dependencies::{
    dependency_graph, describes_cycle, has_dependency_cycle, is_replacement_ordering, lemma_reversed_expansion,
    reversed_order, CyclicDependency,
};
use crate::formulas::FormulaManager;
use crate::identifier::Identifier;
use crate::indexing::{error_identifiers, index_node, unknown_occurrences};
use crate::labels::LabelManager;
use crate::model_maps::calls;
use crate::normalisation::{substitute_in_order, substituted_formulas};
use crate::properties::{
    bound_mapped, path_exprs, path_mapped, query_exprs, query_mapped, reward_exprs, reward_mapped, state_exprs,
    state_mapped, Bound, PathFormula, Query, RewardFormula, StateFormula,
};
use crate::spans::Span;
use crate::substitution::{formula_steps, label_steps};
use crate::variables::{variable_names, VariableManager, VariableReference};
use vstd::prelude::*;

verus! {

/// Whenever `r1` relates two expressions, `r2` does.
pub open spec fn weaker<E, E2>(r1: spec_fn(E, E2) -> bool, r2: spec_fn(E, E2) -> bool) -> bool {
    forall|x: E, y: E2| #[trigger] r1(x, y) ==> r2(x, y)
}

proof fn lemma_state_weaken<E, E2>(a: StateFormula<E>, b: StateFormula<E2>, r1: spec_fn(E, E2) -> bool, r2: spec_fn(E, E2) -> bool)
    requires
        state_mapped(a, b, r1),
        weaker(r1, r2),
    ensures
        state_mapped(a, b, r2),
    decreases a,
{
    match (a, b) {
        (StateFormula::ProbabilityBound { path: p, .. }, StateFormula::ProbabilityBound { path: q, .. }) => {
            lemma_path_weaken(*p, *q, r1, r2);
        },
        (StateFormula::LongRunAverage { path: p, .. }, StateFormula::LongRunAverage { path: q, .. }) => {
            lemma_path_weaken(*p, *q, r1, r2);
        },
        _ => {},
    }
}

proof fn lemma_path_weaken<E, E2>(a: PathFormula<E>, b: PathFormula<E2>, r1: spec_fn(E, E2) -> bool, r2: spec_fn(E, E2) -> bool)
    requires
        path_mapped(a, b, r1),
        weaker(r1, r2),
    ensures
        path_mapped(a, b, r2),
    decreases a,
{
    match (a, b) {
        (PathFormula::Until { before: x1, after: x2 }, PathFormula::Until { before: y1, after: y2 }) => {
            lemma_state_weaken(*x1, *y1, r1, r2);
            lemma_state_weaken(*x2, *y2, r1, r2);
        },
        (PathFormula::Eventually { condition: x }, PathFormula::Eventually { condition: y }) => {
            lemma_state_weaken(*x, *y, r1, r2);
        },
        (PathFormula::BoundedUntil { before: x1, after: x2, .. }, PathFormula::BoundedUntil { before: y1, after: y2, .. }) => {
            lemma_state_weaken(*x1, *y1, r1, r2);
            lemma_state_weaken(*x2, *y2, r1, r2);
        },
        (PathFormula::BoundedEventually { condition: x, .. }, PathFormula::BoundedEventually { condition: y, .. }) => {
            lemma_state_weaken(*x, *y, r1, r2);
        },
        (PathFormula::Generally { condition: x }, PathFormula::Generally { condition: y }) => {
            lemma_state_weaken(*x, *y, r1, r2);
        },
        _ => {},
    }
}

proof fn lemma_query_weaken<E, E2>(a: Query<E>, b: Query<E2>, r1: spec_fn(E, E2) -> bool, r2: spec_fn(E, E2) -> bool)
    requires
        query_mapped(a, b, r1),
        weaker(r1, r2),
    ensures
        query_mapped(a, b, r2),
{
    match (a, b) {
        (Query::ProbabilityValue { path: p, .. }, Query::ProbabilityValue { path: q, .. }) => {
            lemma_path_weaken(p, q, r1, r2);
        },
        (Query::StateFormula(x), Query::StateFormula(y)) => {
            lemma_state_weaken(x, y, r1, r2);
        },
        (Query::RewardBound { reward: r, .. }, Query::RewardBound { reward: s, .. }) => {
            lemma_reward_weaken(r, s, r1, r2);
        },
        (Query::RewardValue { reward: r, .. }, Query::RewardValue { reward: s, .. }) => {
            lemma_reward_weaken(r, s, r1, r2);
        },
        (Query::TimeBound { reward: r, .. }, Query::TimeBound { reward: s, .. }) => {
            lemma_reward_weaken(r, s, r1, r2);
        },
        (Query::TimeValue { reward: r, .. }, Query::TimeValue { reward: s, .. }) => {
            lemma_reward_weaken(r, s, r1, r2);
        },
        _ => {},
    }
}

proof fn lemma_reward_weaken<E, E2>(a: RewardFormula<E>, b: RewardFormula<E2>, r1: spec_fn(E, E2) -> bool, r2: spec_fn(E, E2) -> bool)
    requires
        reward_mapped(a, b, r1),
        weaker(r1, r2),
    ensures
        reward_mapped(a, b, r2),
{
    match (a, b) {
        (RewardFormula::Finally { states: x }, RewardFormula::Finally { states: y }) => {
            lemma_state_weaken(x, y, r1, r2);
        },
        _ => {},
    }
}

/// The names of a query's expressions that are none of `names`, in the order in which the
/// expressions are written.
pub open spec fn query_unknowns<S: Span>(q: Query<Expression<Identifier<S>, S>>, names: Seq<Seq<char>>) -> Seq<Identifier<S>> {
    unknowns_of(query_exprs(q), names)
}

/// The names in `es` that are none of `names`, expression after expression.
pub open spec fn unknowns_of<S: Span>(es: Seq<Expression<Identifier<S>, S>>, names: Seq<Seq<char>>) -> Seq<Identifier<S>>
    decreases es.len(),
{
    if es.len() == 0 {
        seq![]
    } else {
        unknowns_of(es.drop_last(), names) + unknown_occurrences(es.last(), names)
    }
}

proof fn lemma_unknowns_append<S: Span>(a: Seq<Expression<Identifier<S>, S>>, b: Seq<Expression<Identifier<S>, S>>, names: Seq<Seq<char>>)
    ensures
        unknowns_of(a + b, names) == unknowns_of(a, names) + unknowns_of(b, names),
    decreases b.len(),
{
    if b.len() == 0 {
        assert(a + b =~= a);
        assert(unknowns_of(a, names) + unknowns_of(b, names) =~= unknowns_of(a, names));
    } else {
        assert((a + b).drop_last() =~= a + b.drop_last());
        lemma_unknowns_append(a, b.drop_last(), names);
        assert(unknowns_of(a, names) + unknowns_of(b, names) =~= unknowns_of(a, names) + unknowns_of(
            b.drop_last(),
            names,
        ) + unknown_occurrences(b.last(), names));
    }
}

proof fn lemma_unknowns_single<S: Span>(e: Expression<Identifier<S>, S>, names: Seq<Seq<char>>)
    ensures
        unknowns_of(seq![e], names) == unknown_occurrences(e, names),
{
    let single = seq![e];
    assert(single.drop_last() =~= Seq::<Expression<Identifier<S>, S>>::empty());
    assert(single.last() == e);
    assert(unknowns_of(Seq::<Expression<Identifier<S>, S>>::empty(), names) == Seq::<Identifier<S>>::empty());
    assert(unknowns_of(single, names) == unknowns_of(single.drop_last(), names) + unknown_occurrences(e, names));
    assert(Seq::<Identifier<S>>::empty() + unknown_occurrences(e, names) =~= unknown_occurrences(e, names));
}

/// Indexes the value of a bound, appending the unknown names to `errors`.
fn index_bound<S: Span, R>(
    b: &Bound<Expression<Identifier<S>, S>>,
    vm: &VariableManager<S, R>,
    errors: &mut Vec<UnknownVariableError<S>>,
) -> (r: Bound<Expression<VariableReference, S>>)
    ensures
        bound_mapped(*b, r, |x: Expression<Identifier<S>, S>, y: Expression<VariableReference, S>| mapped(x, y, index_node(variable_names(vm.variables@)))),
        error_identifiers(final(errors)@) == error_identifiers(old(errors)@) + unknowns_of(
            seq![b.value],
            variable_names(vm.variables@),
        ),
{
    proof {
        lemma_unknowns_single(b.value, variable_names(vm.variables@));
    }
    Bound { operator: b.operator, value: b.value.index_into(vm, errors) }
}

/// Indexes the expressions of a state formula, appending the unknown names to `errors`.
fn index_state<S: Span, R>(
    s: &StateFormula<Expression<Identifier<S>, S>>,
    vm: &VariableManager<S, R>,
    errors: &mut Vec<UnknownVariableError<S>>,
) -> (r: StateFormula<Expression<VariableReference, S>>)
    ensures
        state_mapped(*s, r, |x: Expression<Identifier<S>, S>, y: Expression<VariableReference, S>| mapped(x, y, index_node(variable_names(vm.variables@)))),
        error_identifiers(final(errors)@) == error_identifiers(old(errors)@) + unknowns_of(
            state_exprs(*s),
            variable_names(vm.variables@),
        ),
    decreases s,
{
    let ghost names = variable_names(vm.variables@);
    let ghost start = error_identifiers(errors@);
    match s {
        StateFormula::Expression(e) => {
            proof {
                lemma_unknowns_single(*e, names);
            }
            StateFormula::Expression(e.index_into(vm, errors))
        },
        StateFormula::ProbabilityBound { non_determinism, bound, path } => {
            let b = index_bound(bound, vm, errors);
            let p = index_path(path, vm, errors);
            proof {
                lemma_unknowns_append(seq![bound.value], path_exprs(**path), names);
            }
            StateFormula::ProbabilityBound { non_determinism: *non_determinism, bound: b, path: Box::new(p) }
        },
        StateFormula::LongRunAverage { non_determinism, bound, path } => {
            let b = index_bound(bound, vm, errors);
            let p = index_path(path, vm, errors);
            proof {
                lemma_unknowns_append(seq![bound.value], path_exprs(**path), names);
            }
            StateFormula::LongRunAverage { non_determinism: *non_determinism, bound: b, path: Box::new(p) }
        },
    }
}

/// Indexes the expressions of a path formula, appending the unknown names to `errors`.
fn index_path<S: Span, R>(
    p: &PathFormula<Expression<Identifier<S>, S>>,
    vm: &VariableManager<S, R>,
    errors: &mut Vec<UnknownVariableError<S>>,
) -> (r: PathFormula<Expression<VariableReference, S>>)
    ensures
        path_mapped(*p, r, |x: Expression<Identifier<S>, S>, y: Expression<VariableReference, S>| mapped(x, y, index_node(variable_names(vm.variables@)))),
        error_identifiers(final(errors)@) == error_identifiers(old(errors)@) + unknowns_of(
            path_exprs(*p),
            variable_names(vm.variables@),
        ),
    decreases p,
{
    let ghost names = variable_names(vm.variables@);
    match p {
        PathFormula::Until { before, after } => {
            let x = index_state(before, vm, errors);
            let y = index_state(after, vm, errors);
            proof {
                lemma_unknowns_append(state_exprs(**before), state_exprs(**after), names);
            }
            PathFormula::Until { before: Box::new(x), after: Box::new(y) }
        },
        PathFormula::Eventually { condition } => {
            let x = index_state(condition, vm, errors);
            PathFormula::Eventually { condition: Box::new(x) }
        },
        PathFormula::BoundedUntil { before, after, bound } => {
            let x = index_state(before, vm, errors);
            let b = index_bound(bound, vm, errors);
            let y = index_state(after, vm, errors);
            proof {
                lemma_unknowns_append(state_exprs(**before), seq![bound.value], names);
                lemma_unknowns_append(state_exprs(**before) + seq![bound.value], state_exprs(**after), names);
            }
            PathFormula::BoundedUntil { before: Box::new(x), after: Box::new(y), bound: b }
        },
        PathFormula::BoundedEventually { condition, bound } => {
            let b = index_bound(bound, vm, errors);
            let x = index_state(condition, vm, errors);
            proof {
                lemma_unknowns_append(seq![bound.value], state_exprs(**condition), names);
            }
            PathFormula::BoundedEventually { condition: Box::new(x), bound: b }
        },
        PathFormula::Generally { condition } => {
            let x = index_state(condition, vm, errors);
            PathFormula::Generally { condition: Box::new(x) }
        },
    }
}

/// Indexes the expressions of a reward formula, appending the unknown names to `errors`.
fn index_reward<S: Span, R>(
    w: &RewardFormula<Expression<Identifier<S>, S>>,
    vm: &VariableManager<S, R>,
    errors: &mut Vec<UnknownVariableError<S>>,
) -> (r: RewardFormula<Expression<VariableReference, S>>)
    ensures
        reward_mapped(*w, r, |x: Expression<Identifier<S>, S>, y: Expression<VariableReference, S>| mapped(x, y, index_node(variable_names(vm.variables@)))),
        error_identifiers(final(errors)@) == error_identifiers(old(errors)@) + unknowns_of(
            reward_exprs(*w),
            variable_names(vm.variables@),
        ),
{
    let ghost names = variable_names(vm.variables@);
    match w {
        RewardFormula::Instantaneous { k } => {
            proof {
                lemma_unknowns_single(*k, names);
            }
            RewardFormula::Instantaneous { k: k.index_into(vm, errors) }
        },
        RewardFormula::Cumulative { k } => {
            proof {
                lemma_unknowns_single(*k, names);
            }
            RewardFormula::Cumulative { k: k.index_into(vm, errors) }
        },
        RewardFormula::Finally { states } => RewardFormula::Finally { states: index_state(states, vm, errors) },
        RewardFormula::LongRunAverage => {
            assert(error_identifiers(errors@) + unknowns_of(reward_exprs(*w), names) =~= error_identifiers(errors@));
            RewardFormula::LongRunAverage
        },
    }
}

/// The relation "`b` is `a` with every variable and label referred to by the index of its name
/// in `names`".
pub open spec fn indexed_by<S: Span>(names: Seq<Seq<char>>) -> spec_fn(Expression<Identifier<S>, S>, Expression<VariableReference, S>) -> bool {
    |x: Expression<Identifier<S>, S>, y: Expression<VariableReference, S>| mapped(x, y, index_node(names))
}

/// The relation "`b` is `a` with the labels substituted one after the other".
pub open spec fn labels_substituted<S: Span>(labels: LabelManager<S, Expression<Identifier<S>, S>>) -> spec_fn(
    Expression<Identifier<S>, S>,
    Expression<Identifier<S>, S>,
) -> bool {
    |a: Expression<Identifier<S>, S>, b: Expression<Identifier<S>, S>| substituted_in_turn(a, b, label_steps(labels.labels@), true)
}

proof fn lemma_state_has_expression<E>(s: StateFormula<E>)
    ensures
        state_exprs(s).len() > 0,
{
}

proof fn lemma_path_has_expression<E>(p: PathFormula<E>)
    ensures
        path_exprs(p).len() > 0,
{
    match p {
        PathFormula::Until { before, after } => lemma_state_has_expression(*before),
        PathFormula::Eventually { condition } => lemma_state_has_expression(*condition),
        PathFormula::BoundedUntil { before, .. } => lemma_state_has_expression(*before),
        PathFormula::BoundedEventually { .. } => {},
        PathFormula::Generally { condition } => lemma_state_has_expression(*condition),
    }
}

impl<E> Query<E> {
    /// Whether the query holds an expression: all do but reward and time values of the long-run
    /// average.
    pub fn has_expressions(&self) -> (r: bool)
        ensures
            r == (query_exprs(*self).len() > 0),
    {
        match self {
            Query::ProbabilityValue { path, .. } => {
                proof {
                    lemma_path_has_expression(*path);
                }
                true
            },
            Query::StateFormula(x) => {
                proof {
                    lemma_state_has_expression(*x);
                }
                true
            },
            Query::RewardBound { .. } => true,
            Query::TimeBound { .. } => true,
            Query::RewardValue { reward, .. } => match reward {
                RewardFormula::LongRunAverage => false,
                RewardFormula::Finally { states } => {
                    proof {
                        lemma_state_has_expression(*states);
                    }
                    true
                },
                _ => true,
            },
            Query::TimeValue { reward, .. } => match reward {
                RewardFormula::LongRunAverage => false,
                RewardFormula::Finally { states } => {
                    proof {
                        lemma_state_has_expression(*states);
                    }
                    true
                },
                _ => true,
            },
        }
    }
}

impl<S: Span> Query<Expression<Identifier<S>, S>> {
    /// Replaces every label of the query's expressions by its condition, for each label of
    /// `labels` in turn.
    pub fn substitute_labels(self, labels: &LabelManager<S, Expression<Identifier<S>, S>>) -> (r: Self)
        ensures
            query_mapped(self, r, labels_substituted(*labels)),
    {
        let f = |e: Expression<Identifier<S>, S>| -> (r: Expression<Identifier<S>, S>)
            ensures
                substituted_in_turn(e, r, label_steps(labels.labels@), true),
            {
                let mut e = e;
                e.substitute_labels(labels);
                e
            };
        let r = self.map_expressions_into(&f);
        proof {
            assert forall|x: Expression<Identifier<S>, S>, y: Expression<Identifier<S>, S>| #[trigger] calls(f)(x, y) implies labels_substituted(
                *labels,
            )(x, y) by {}
            lemma_query_weaken(self, r, calls(f), labels_substituted(*labels));
        }
        r
    }

    /// Replaces every reference to a formula of `formulas` in the query's expressions by the
    /// formula's condition, substituting the formulas in the reverse of the order of
    /// [`FormulaManager::get_formula_replacement_ordering`].
    ///
    /// A query without expressions is returned as it is. Otherwise, if the formulas depend on
    /// each other cyclically, the cycle is returned.
    pub fn substitute_formulas(self, formulas: &FormulaManager<S, Expression<Identifier<S>, S>>) -> (r: Result<
        Self,
        CyclicDependency<S>,
    >)
        ensures
            query_exprs(self).len() == 0 ==> r == Ok::<Self, CyclicDependency<S>>(self),
            query_exprs(self).len() > 0 ==> (r is Ok <==> !has_dependency_cycle(dependency_graph(formulas.formulas@))),
            query_exprs(self).len() > 0 ==> (r matches Err(c) ==> describes_cycle(
                formulas.formulas@,
                dependency_graph(formulas.formulas@),
                c.entries@,
            )),
            query_exprs(self).len() > 0 ==> (r matches Ok(q) ==> exists|order: Seq<usize>|
                is_replacement_ordering(dependency_graph(formulas.formulas@), order) && #[trigger] query_mapped(
                    self,
                    q,
                    substituted_formulas(formulas.formulas@, order),
                )),
    {
        if !self.has_expressions() {
            return Ok(self);
        }
        let expansion = match formulas.get_formula_replacement_ordering() {
            Ok(order) => order,
            Err(c) => {
                return Err(c);
            },
        };
        proof {
            lemma_reversed_expansion(dependency_graph(formulas.formulas@), expansion@);
        }
        let order = reversed_order(&expansion);
        let ghost g = dependency_graph(formulas.formulas@);
        let ord = &order;
        let f = |e: Expression<Identifier<S>, S>| -> (r: Expression<Identifier<S>, S>)
            requires
                forall|p: int| 0 <= p < ord@.len() ==> #[trigger] ord@[p] < formulas.formulas@.len(),
            ensures
                substituted_in_turn(e, r, formula_steps(formulas.formulas@, ord@), false),
            { substitute_in_order(e, formulas, ord) };
        proof {
            assert(forall|p: int| 0 <= p < ord@.len() ==> #[trigger] ord@[p] < g.len());
        }
        let r = self.map_expressions_into(&f);
        proof {
            let re = substituted_formulas(formulas.formulas@, order@);
            assert forall|x: Expression<Identifier<S>, S>, y: Expression<Identifier<S>, S>| #[trigger] calls(f)(x, y) implies re(
                x,
                y,
            ) by {}
            lemma_query_weaken(self, r, calls(f), re);
        }
        Ok(r)
    }

    /// Replaces every variable and label of the query's expressions by a reference to the
    /// variable of that name in `variable_manager`. Fails with every unknown name, in the order
    /// in which the expressions are written.
    pub fn replace_identifiers_by_variable_indices<R>(&self, variable_manager: &VariableManager<S, R>) -> (r: Result<
        Query<Expression<VariableReference, S>>,
        Vec<UnknownVariableError<S>>,
    >)
        ensures
            r is Ok <==> query_unknowns(*self, variable_names(variable_manager.variables@)).len() == 0,
            r matches Ok(q) ==> query_mapped(*self, q, indexed_by(variable_names(variable_manager.variables@))),
            r matches Err(errs) ==> error_identifiers(errs@) == query_unknowns(
                *self,
                variable_names(variable_manager.variables@),
            ),
    {
        let ghost names = variable_names(variable_manager.variables@);
        let mut errors: Vec<UnknownVariableError<S>> = Vec::new();
        proof {
            assert(error_identifiers(errors@) =~= Seq::<Identifier<S>>::empty());
        }
        let vm = variable_manager;
        let q = match self {
            Query::ProbabilityValue { non_determinism, path } => Query::ProbabilityValue {
                non_determinism: *non_determinism,
                path: index_path(path, vm, &mut errors),
            },
            Query::StateFormula(x) => Query::StateFormula(index_state(x, vm, &mut errors)),
            Query::RewardBound { non_determinism, name, bound, reward } => {
                let b = index_bound(bound, vm, &mut errors);
                let w = index_reward(reward, vm, &mut errors);
                proof {
                    lemma_unknowns_append(seq![bound.value], reward_exprs(*reward), names);
                }
                Query::RewardBound { non_determinism: *non_determinism, name: name.clone(), bound: b, reward: w }
            },
            Query::RewardValue { non_determinism, name, reward } => Query::RewardValue {
                non_determinism: *non_determinism,
                name: name.clone(),
                reward: index_reward(reward, vm, &mut errors),
            },
            Query::TimeBound { non_determinism, bound, reward } => {
                let b = index_bound(bound, vm, &mut errors);
                let w = index_reward(reward, vm, &mut errors);
                proof {
                    lemma_unknowns_append(seq![bound.value], reward_exprs(*reward), names);
                }
                Query::TimeBound { non_determinism: *non_determinism, bound: b, reward: w }
            },
            Query::TimeValue { non_determinism, reward } => Query::TimeValue {
                non_determinism: *non_determinism,
                reward: index_reward(reward, vm, &mut errors),
            },
        };
        proof {
            assert(Seq::<Identifier<S>>::empty() + query_unknowns(*self, names) =~= query_unknowns(*self, names));
        }
        if errors.len() == 0 {
            Ok(q)
        } else {
            Err(errors)
        }
    }
}

} // verus!
