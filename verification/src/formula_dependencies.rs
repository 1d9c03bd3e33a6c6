use crate::expressions::{
    children, lemma_children_decrease, variable_uses, variable_uses_from, Expression,
};
use crate::formulas::{formula_names, Formula, FormulaManager};
use crate::identifier::Identifier;
use crate::names::{first_index_of, lemma_first_index_of, lemma_first_index_of_spec};
use crate::spans::Span;
use vstd::prelude::*;

verus! {

/// A dependency of an expression on a formula: the index of the formula, and the span of the
/// (first) place where the expression refers to it.
#[derive(Debug)]
pub struct SpannedDependency<S> {
    /// The index of the formula that is depended on.
    pub dependency: usize,
    /// The span of the reference to the formula.
    pub span: S,
}

impl<S> SpannedDependency<S> {
    /// Constructs a dependency.
    pub fn new(dependency: usize, span: S) -> (r: Self)
        ensures
            r.dependency == dependency,
            r.span == span,
    {
        SpannedDependency { dependency, span }
    }
}

/// A list of dependencies as pairs of formula index and span.
pub open spec fn dependency_pairs<S>(deps: Seq<SpannedDependency<S>>) -> Seq<(usize, S)> {
    deps.map_values(|d: SpannedDependency<S>| (d.dependency, d.span))
}

/// `deps` holds a dependency on formula `i`.
pub open spec fn has_dependency<S>(deps: Seq<(usize, S)>, i: usize) -> bool {
    exists|k: int| 0 <= k < deps.len() && #[trigger] deps[k].0 == i
}

/// One step of collecting dependencies: the use `u` of a variable adds a dependency on the first
/// formula of that name, unless there is no such formula or it is already a dependency.
pub open spec fn dependency_step<S: Span>(
    deps: Seq<(usize, S)>,
    u: (Identifier<S>, S),
    names: Seq<Seq<char>>,
) -> Seq<(usize, S)> {
    match first_index_of(names, u.0.name@) {
        Some(i) => if has_dependency(deps, i as usize) {
            deps
        } else {
            deps.push((i as usize, u.1))
        },
        None => deps,
    }
}

/// The dependencies collected from the variable uses `uses`, in order, starting from `deps`.
pub open spec fn dependencies_after<S: Span>(
    deps: Seq<(usize, S)>,
    uses: Seq<(Identifier<S>, S)>,
    names: Seq<Seq<char>>,
) -> Seq<(usize, S)>
    decreases uses.len(),
{
    if uses.len() == 0 {
        deps
    } else {
        dependency_step(dependencies_after(deps, uses.drop_last(), names), uses.last(), names)
    }
}

/// The formulas (among formulas named `names`) that expression `e` refers to, in the order of
/// their first reference, each with the span of that reference.
pub open spec fn formula_dependencies<S: Span>(
    e: Expression<Identifier<S>, S>,
    names: Seq<Seq<char>>,
) -> Seq<(usize, S)> {
    dependencies_after(Seq::empty(), variable_uses(e), names)
}

/// Collecting from two lists of uses in turn is collecting from their concatenation.
pub proof fn lemma_dependencies_after_concat<S: Span>(
    deps: Seq<(usize, S)>,
    a: Seq<(Identifier<S>, S)>,
    b: Seq<(Identifier<S>, S)>,
    names: Seq<Seq<char>>,
)
    ensures
        dependencies_after(deps, a + b, names) == dependencies_after(
            dependencies_after(deps, a, names),
            b,
            names,
        ),
    decreases b.len(),
{
    if b.len() == 0 {
        assert(a + b =~= a);
    } else {
        assert((a + b).drop_last() =~= a + b.drop_last());
        assert((a + b).last() == b.last());
        lemma_dependencies_after_concat(deps, a, b.drop_last(), names);
    }
}

proof fn lemma_dependencies_after_one<S: Span>(
    deps: Seq<(usize, S)>,
    u: (Identifier<S>, S),
    names: Seq<Seq<char>>,
)
    ensures
        dependencies_after(deps, seq![u], names) == dependency_step(deps, u, names),
{
    assert(seq![u].drop_last() =~= Seq::<(Identifier<S>, S)>::empty());
    assert(dependencies_after(deps, seq![u].drop_last(), names) == deps);
}

proof fn lemma_dependencies_after_empty<S: Span>(deps: Seq<(usize, S)>, names: Seq<Seq<char>>)
    ensures
        dependencies_after(deps, Seq::empty(), names) == deps,
{
}

/// Every collected dependency is the index of a formula.
pub proof fn lemma_dependencies_bounded<S: Span>(
    deps: Seq<(usize, S)>,
    uses: Seq<(Identifier<S>, S)>,
    names: Seq<Seq<char>>,
)
    requires
        names.len() <= usize::MAX,
        forall|k: int| 0 <= k < deps.len() ==> (#[trigger] deps[k]).0 < names.len(),
    ensures
        forall|k: int|
            0 <= k < dependencies_after(deps, uses, names).len() ==> (#[trigger] dependencies_after(
                deps,
                uses,
                names,
            )[k]).0 < names.len(),
    decreases uses.len(),
{
    if uses.len() > 0 {
        lemma_dependencies_bounded(deps, uses.drop_last(), names);
        lemma_first_index_of_spec(names, uses.last().0.name@);
        let prev = dependencies_after(deps, uses.drop_last(), names);
        let r = dependencies_after(deps, uses, names);
        assert forall|k: int| 0 <= k < r.len() implies (#[trigger] r[k]).0 < names.len() by {
            if k < prev.len() {
                assert(r[k] == prev[k]);
            }
        }
    }
}

proof fn lemma_uses_step<S: Span>(e: Expression<Identifier<S>, S>, i: int, names: Seq<Seq<char>>, deps: Seq<(usize, S)>)
    requires
        0 <= i < children(e).len(),
    ensures
        dependencies_after(deps, variable_uses_from(e, i), names) == dependencies_after(
            dependencies_after(deps, variable_uses(children(e)[i]), names),
            variable_uses_from(e, i + 1),
            names,
        ),
{
    lemma_dependencies_after_concat(deps, variable_uses(children(e)[i]), variable_uses_from(e, i + 1), names);
}

impl<S: Span> FormulaManager<S, Expression<Identifier<S>, S>> {
    /// The dependencies of `e`, as [`FormulaManager::spanned_formulas_in_expression`] finds them.
    fn dependencies_of(&self, e: &Expression<Identifier<S>, S>) -> (r: Vec<SpannedDependency<S>>)
        ensures
            dependency_pairs(r@) == formula_dependencies(*e, formula_names(self.formulas@)),
    {
        let mut found: Vec<SpannedDependency<S>> = Vec::new();
        proof {
            assert(dependency_pairs(found@) =~= Seq::<(usize, S)>::empty());
        }
        self.collect_dependencies(e, &mut found);
        found
    }

    /// The index of the first formula named like `name`, or `None`.
    fn formula_index(&self, name: &Identifier<S>) -> (r: Option<usize>)
        ensures
            r == match first_index_of(formula_names(self.formulas@), name.name@) {
                Some(i) => Some(i as usize),
                None => None::<usize>,
            },
    {
        let ghost names = formula_names(self.formulas@);
        let mut index: usize = 0;
        while index < self.formulas.len()
            invariant
                names == formula_names(self.formulas@),
                index <= self.formulas@.len(),
                forall|j: int| 0 <= j < index ==> names[j] != name.name@,
            decreases self.formulas.len() - index,
        {
            if self.formulas[index].name == *name {
                proof {
                    lemma_first_index_of(names, name.name@, index as int);
                }
                return Some(index);
            }
            index = index + 1;
        }
        proof {
            lemma_first_index_of(names, name.name@, index as int);
        }
        None
    }

    /// Collects the formulas that `e` refers to into `found`, skipping those already there.
    fn collect_dependencies(&self, e: &Expression<Identifier<S>, S>, found: &mut Vec<SpannedDependency<S>>)
        ensures
            dependency_pairs(final(found)@) == dependencies_after(
                dependency_pairs(old(found)@),
                variable_uses(*e),
                formula_names(self.formulas@),
            ),
        decreases e,
    {
        let ghost names = formula_names(self.formulas@);
        let ghost e0 = *e;
        let ghost start = dependency_pairs(found@);
        match e {
            Expression::Int(x0, xs) => {
                proof {
                    lemma_dependencies_after_empty(start, names);
                    assert(variable_uses(e0) =~= Seq::<(Identifier<S>, S)>::empty());
                }
            },
            Expression::Float(x0, xs) => {
                proof {
                    lemma_dependencies_after_empty(start, names);
                    assert(variable_uses(e0) =~= Seq::<(Identifier<S>, S)>::empty());
                }
            },
            Expression::Bool(x0, xs) => {
                proof {
                    lemma_dependencies_after_empty(start, names);
                    assert(variable_uses(e0) =~= Seq::<(Identifier<S>, S)>::empty());
                }
            },
            Expression::VarOrConst(x0, xs) => {
                proof {
                    lemma_dependencies_after_one(start, (*x0, *xs), names);
                }
                match self.formula_index(x0) {
                    Some(index) => {
                        let mut k: usize = 0;
                        let mut present = false;
                        while k < found.len()
                            invariant
                                k <= found@.len(),
                                start == dependency_pairs(found@),
                                present <==> has_dependency(start.take(k as int), index),
                            decreases found.len() - k,
                        {
                            proof {
                                assert(start.take(k + 1).drop_last() =~= start.take(k as int));
                                if has_dependency(start.take(k as int), index) {
                                    let w = choose|w: int| 0 <= w < k && #[trigger] start.take(k as int)[w].0 == index;
                                    assert(start.take(k + 1)[w].0 == index);
                                }
                                if has_dependency(start.take(k + 1), index) {
                                    let w = choose|w: int| 0 <= w < k + 1 && #[trigger] start.take(k + 1)[w].0 == index;
                                    if w < k {
                                        assert(start.take(k as int)[w].0 == index);
                                    }
                                }
                                assert(start.take(k + 1)[k as int].0 == found@[k as int].dependency);
                            }
                            if found[k].dependency == index {
                                present = true;
                            }
                            k = k + 1;
                        }
                        proof {
                            assert(start.take(k as int) =~= start);
                        }
                        if !present {
                            let d = SpannedDependency::new(index, xs.duplicate());
                            found.push(d);
                            proof {
                                assert(dependency_pairs(found@) =~= start.push((index, *xs)));
                            }
                        }
                    },
                    None => {},
                }
            },
            Expression::Label(x0, xs) => {
                proof {
                    lemma_dependencies_after_empty(start, names);
                    assert(variable_uses(e0) =~= Seq::<(Identifier<S>, S)>::empty());
                }
            },
            Expression::Function(x0, x1, xs) => {
                let mut i: usize = 0;
                proof {
                    assert(variable_uses(e0) == variable_uses_from(e0, 0));
                }
                while i < x1.len()
                    invariant
                        i <= x1@.len(),
                        e0 == *e,
                        e0 is Function,
                        children(e0) == x1@,
                        names == formula_names(self.formulas@),
                        dependencies_after(dependency_pairs(found@), variable_uses_from(e0, i as int), names)
                            == dependencies_after(start, variable_uses(e0), names),
                    decreases x1.len() - i,
                {
                    proof {
                        lemma_children_decrease(e0, i as int);
                        lemma_uses_step(e0, i as int, names, dependency_pairs(found@));
                    }
                    self.collect_dependencies(&x1[i], found);
                    i = i + 1;
                }
                proof {
                    lemma_dependencies_after_empty(dependency_pairs(found@), names);
                }
            },
            Expression::Minus(x0, xs) => {
                proof {
                    assert(variable_uses(e0) == variable_uses_from(e0, 0));
                }
                proof {
                    lemma_children_decrease(e0, 0);
                    lemma_uses_step(e0, 0, names, dependency_pairs(found@));
                }
                self.collect_dependencies(x0, found);
                proof {
                    lemma_dependencies_after_empty(dependency_pairs(found@), names);
                }
            },
            Expression::Multiplication(x0, x1, xs) => {
                proof {
                    assert(variable_uses(e0) == variable_uses_from(e0, 0));
                }
                proof {
                    lemma_children_decrease(e0, 0);
                    lemma_uses_step(e0, 0, names, dependency_pairs(found@));
                }
                self.collect_dependencies(x0, found);
                proof {
                    lemma_children_decrease(e0, 1);
                    lemma_uses_step(e0, 1, names, dependency_pairs(found@));
                }
                self.collect_dependencies(x1, found);
                proof {
                    lemma_dependencies_after_empty(dependency_pairs(found@), names);
                }
            },
            Expression::Division(x0, x1, xs) => {
                proof {
                    assert(variable_uses(e0) == variable_uses_from(e0, 0));
                }
                proof {
                    lemma_children_decrease(e0, 0);
                    lemma_uses_step(e0, 0, names, dependency_pairs(found@));
                }
                self.collect_dependencies(x0, found);
                proof {
                    lemma_children_decrease(e0, 1);
                    lemma_uses_step(e0, 1, names, dependency_pairs(found@));
                }
                self.collect_dependencies(x1, found);
                proof {
                    lemma_dependencies_after_empty(dependency_pairs(found@), names);
                }
            },
            Expression::Addition(x0, x1, xs) => {
                proof {
                    assert(variable_uses(e0) == variable_uses_from(e0, 0));
                }
                proof {
                    lemma_children_decrease(e0, 0);
                    lemma_uses_step(e0, 0, names, dependency_pairs(found@));
                }
                self.collect_dependencies(x0, found);
                proof {
                    lemma_children_decrease(e0, 1);
                    lemma_uses_step(e0, 1, names, dependency_pairs(found@));
                }
                self.collect_dependencies(x1, found);
                proof {
                    lemma_dependencies_after_empty(dependency_pairs(found@), names);
                }
            },
            Expression::Subtraction(x0, x1, xs) => {
                proof {
                    assert(variable_uses(e0) == variable_uses_from(e0, 0));
                }
                proof {
                    lemma_children_decrease(e0, 0);
                    lemma_uses_step(e0, 0, names, dependency_pairs(found@));
                }
                self.collect_dependencies(x0, found);
                proof {
                    lemma_children_decrease(e0, 1);
                    lemma_uses_step(e0, 1, names, dependency_pairs(found@));
                }
                self.collect_dependencies(x1, found);
                proof {
                    lemma_dependencies_after_empty(dependency_pairs(found@), names);
                }
            },
            Expression::LessThan(x0, x1, xs) => {
                proof {
                    assert(variable_uses(e0) == variable_uses_from(e0, 0));
                }
                proof {
                    lemma_children_decrease(e0, 0);
                    lemma_uses_step(e0, 0, names, dependency_pairs(found@));
                }
                self.collect_dependencies(x0, found);
                proof {
                    lemma_children_decrease(e0, 1);
                    lemma_uses_step(e0, 1, names, dependency_pairs(found@));
                }
                self.collect_dependencies(x1, found);
                proof {
                    lemma_dependencies_after_empty(dependency_pairs(found@), names);
                }
            },
            Expression::LessOrEqual(x0, x1, xs) => {
                proof {
                    assert(variable_uses(e0) == variable_uses_from(e0, 0));
                }
                proof {
                    lemma_children_decrease(e0, 0);
                    lemma_uses_step(e0, 0, names, dependency_pairs(found@));
                }
                self.collect_dependencies(x0, found);
                proof {
                    lemma_children_decrease(e0, 1);
                    lemma_uses_step(e0, 1, names, dependency_pairs(found@));
                }
                self.collect_dependencies(x1, found);
                proof {
                    lemma_dependencies_after_empty(dependency_pairs(found@), names);
                }
            },
            Expression::GreaterThan(x0, x1, xs) => {
                proof {
                    assert(variable_uses(e0) == variable_uses_from(e0, 0));
                }
                proof {
                    lemma_children_decrease(e0, 0);
                    lemma_uses_step(e0, 0, names, dependency_pairs(found@));
                }
                self.collect_dependencies(x0, found);
                proof {
                    lemma_children_decrease(e0, 1);
                    lemma_uses_step(e0, 1, names, dependency_pairs(found@));
                }
                self.collect_dependencies(x1, found);
                proof {
                    lemma_dependencies_after_empty(dependency_pairs(found@), names);
                }
            },
            Expression::GreaterOrEqual(x0, x1, xs) => {
                proof {
                    assert(variable_uses(e0) == variable_uses_from(e0, 0));
                }
                proof {
                    lemma_children_decrease(e0, 0);
                    lemma_uses_step(e0, 0, names, dependency_pairs(found@));
                }
                self.collect_dependencies(x0, found);
                proof {
                    lemma_children_decrease(e0, 1);
                    lemma_uses_step(e0, 1, names, dependency_pairs(found@));
                }
                self.collect_dependencies(x1, found);
                proof {
                    lemma_dependencies_after_empty(dependency_pairs(found@), names);
                }
            },
            Expression::Equals(x0, x1, xs) => {
                proof {
                    assert(variable_uses(e0) == variable_uses_from(e0, 0));
                }
                proof {
                    lemma_children_decrease(e0, 0);
                    lemma_uses_step(e0, 0, names, dependency_pairs(found@));
                }
                self.collect_dependencies(x0, found);
                proof {
                    lemma_children_decrease(e0, 1);
                    lemma_uses_step(e0, 1, names, dependency_pairs(found@));
                }
                self.collect_dependencies(x1, found);
                proof {
                    lemma_dependencies_after_empty(dependency_pairs(found@), names);
                }
            },
            Expression::NotEquals(x0, x1, xs) => {
                proof {
                    assert(variable_uses(e0) == variable_uses_from(e0, 0));
                }
                proof {
                    lemma_children_decrease(e0, 0);
                    lemma_uses_step(e0, 0, names, dependency_pairs(found@));
                }
                self.collect_dependencies(x0, found);
                proof {
                    lemma_children_decrease(e0, 1);
                    lemma_uses_step(e0, 1, names, dependency_pairs(found@));
                }
                self.collect_dependencies(x1, found);
                proof {
                    lemma_dependencies_after_empty(dependency_pairs(found@), names);
                }
            },
            Expression::Negation(x0, xs) => {
                proof {
                    assert(variable_uses(e0) == variable_uses_from(e0, 0));
                }
                proof {
                    lemma_children_decrease(e0, 0);
                    lemma_uses_step(e0, 0, names, dependency_pairs(found@));
                }
                self.collect_dependencies(x0, found);
                proof {
                    lemma_dependencies_after_empty(dependency_pairs(found@), names);
                }
            },
            Expression::Conjunction(x0, x1, xs) => {
                proof {
                    assert(variable_uses(e0) == variable_uses_from(e0, 0));
                }
                proof {
                    lemma_children_decrease(e0, 0);
                    lemma_uses_step(e0, 0, names, dependency_pairs(found@));
                }
                self.collect_dependencies(x0, found);
                proof {
                    lemma_children_decrease(e0, 1);
                    lemma_uses_step(e0, 1, names, dependency_pairs(found@));
                }
                self.collect_dependencies(x1, found);
                proof {
                    lemma_dependencies_after_empty(dependency_pairs(found@), names);
                }
            },
            Expression::Disjunction(x0, x1, xs) => {
                proof {
                    assert(variable_uses(e0) == variable_uses_from(e0, 0));
                }
                proof {
                    lemma_children_decrease(e0, 0);
                    lemma_uses_step(e0, 0, names, dependency_pairs(found@));
                }
                self.collect_dependencies(x0, found);
                proof {
                    lemma_children_decrease(e0, 1);
                    lemma_uses_step(e0, 1, names, dependency_pairs(found@));
                }
                self.collect_dependencies(x1, found);
                proof {
                    lemma_dependencies_after_empty(dependency_pairs(found@), names);
                }
            },
            Expression::IfAndOnlyIf(x0, x1, xs) => {
                proof {
                    assert(variable_uses(e0) == variable_uses_from(e0, 0));
                }
                proof {
                    lemma_children_decrease(e0, 0);
                    lemma_uses_step(e0, 0, names, dependency_pairs(found@));
                }
                self.collect_dependencies(x0, found);
                proof {
                    lemma_children_decrease(e0, 1);
                    lemma_uses_step(e0, 1, names, dependency_pairs(found@));
                }
                self.collect_dependencies(x1, found);
                proof {
                    lemma_dependencies_after_empty(dependency_pairs(found@), names);
                }
            },
            Expression::Implies(x0, x1, xs) => {
                proof {
                    assert(variable_uses(e0) == variable_uses_from(e0, 0));
                }
                proof {
                    lemma_children_decrease(e0, 0);
                    lemma_uses_step(e0, 0, names, dependency_pairs(found@));
                }
                self.collect_dependencies(x0, found);
                proof {
                    lemma_children_decrease(e0, 1);
                    lemma_uses_step(e0, 1, names, dependency_pairs(found@));
                }
                self.collect_dependencies(x1, found);
                proof {
                    lemma_dependencies_after_empty(dependency_pairs(found@), names);
                }
            },
            Expression::Ternary(x0, x1, x2, xs) => {
                proof {
                    assert(variable_uses(e0) == variable_uses_from(e0, 0));
                }
                proof {
                    lemma_children_decrease(e0, 0);
                    lemma_uses_step(e0, 0, names, dependency_pairs(found@));
                }
                self.collect_dependencies(x0, found);
                proof {
                    lemma_children_decrease(e0, 1);
                    lemma_uses_step(e0, 1, names, dependency_pairs(found@));
                }
                self.collect_dependencies(x1, found);
                proof {
                    lemma_children_decrease(e0, 2);
                    lemma_uses_step(e0, 2, names, dependency_pairs(found@));
                }
                self.collect_dependencies(x2, found);
                proof {
                    lemma_dependencies_after_empty(dependency_pairs(found@), names);
                }
            },
        }
    }

    /// Returns the formulas that `expression` refers to as variables, in the order of their first
    /// reference, each with the span of that reference. Labels are not formulas.
    pub fn spanned_formulas_in_expression(
        &self,
        expression: Expression<Identifier<S>, S>,
    ) -> (r: Vec<SpannedDependency<S>>)
        ensures
            dependency_pairs(r@) == formula_dependencies(expression, formula_names(self.formulas@)),
    {
        let mut found: Vec<SpannedDependency<S>> = Vec::new();
        proof {
            assert(dependency_pairs(found@) =~= Seq::<(usize, S)>::empty());
        }
        self.collect_dependencies(&expression, &mut found);
        found
    }
}


/// The dependency graph of a list of formulas: for each formula, the formulas that its condition
/// refers to, in the order of first reference, with the span of that reference.
pub open spec fn dependency_graph<S: Span>(
    formulas: Seq<Formula<S, Expression<Identifier<S>, S>>>,
) -> Seq<Seq<(usize, S)>> {
    formulas.map_values(
        |f: Formula<S, Expression<Identifier<S>, S>>|
            formula_dependencies(f.condition, formula_names(formulas)),
    )
}

/// Formula `i` refers to formula `j`.
pub open spec fn depends_on<S>(graph: Seq<Seq<(usize, S)>>, i: usize, j: usize) -> bool {
    &&& i < graph.len()
    &&& exists|k: int| 0 <= k < graph[i as int].len() && #[trigger] graph[i as int][k].0 == j
}

/// Formula `i` refers to formula `j`, first at `span`.
pub open spec fn depends_at<S>(graph: Seq<Seq<(usize, S)>>, i: usize, j: usize, span: S) -> bool {
    &&& i < graph.len()
    &&& exists|k: int| 0 <= k < graph[i as int].len() && #[trigger] graph[i as int][k] == (j, span)
}

/// `cycle` is a non-empty list of formulas each of which refers to the one before it, the first
/// one referring to the last one.
pub open spec fn is_dependency_cycle<S>(graph: Seq<Seq<(usize, S)>>, cycle: Seq<usize>) -> bool {
    &&& cycle.len() > 0
    &&& forall|k: int| 0 <= k < cycle.len() ==> #[trigger] cycle[k] < graph.len()
    &&& forall|k: int| 1 <= k < cycle.len() ==> depends_on(graph, #[trigger] cycle[k], cycle[k - 1])
    &&& depends_on(graph, cycle[0], cycle.last())
}

/// The formulas depend on each other in a cycle.
pub open spec fn has_dependency_cycle<S>(graph: Seq<Seq<(usize, S)>>) -> bool {
    exists|cycle: Seq<usize>| #[trigger] is_dependency_cycle(graph, cycle)
}

/// `i` occurs in `order`.
pub open spec fn appears_in(order: Seq<usize>, i: usize) -> bool {
    exists|p: int| 0 <= p < order.len() && order[p] == i
}

/// `order` lists every formula exactly once, each one before every formula that it refers to.
/// Substituting the formulas in this order replaces every reference to a formula, since the
/// formulas that a substitution brings in are substituted later.
pub open spec fn is_replacement_ordering<S>(graph: Seq<Seq<(usize, S)>>, order: Seq<usize>) -> bool {
    &&& order.len() == graph.len()
    &&& forall|p: int| 0 <= p < order.len() ==> #[trigger] order[p] < graph.len()
    &&& forall|i: usize| i < graph.len() ==> #[trigger] appears_in(order, i)
    &&& forall|p: int, q: int|
        #![trigger order[p], order[q]]
        0 <= p < order.len() && 0 <= q < order.len() && p != q ==> order[p] != order[q]
    &&& forall|p: int, q: int|
        #![trigger order[p], order[q]]
        0 <= p < order.len() && 0 <= q < order.len() && depends_on(graph, order[p], order[q]) ==> p < q
}

/// An error indicating that formulas depend on each other cyclically.
///
/// Entry `k` (for `k >= 1`) is a formula that refers to the formula of entry `k - 1`, and the
/// formula of the first entry refers to the formula of the last one; each entry holds the span
/// of that reference.
#[derive(Debug, PartialEq)]
pub struct CyclicDependency<S: Span> {
    /// The formulas of the cycle.
    pub entries: Vec<CyclicDependencyEntry<S>>,
}

/// A formula of a cycle of dependencies.
#[derive(Debug, PartialEq)]
pub struct CyclicDependencyEntry<S: Span> {
    /// The name of the formula.
    pub formula_name: Identifier<S>,
    /// The span of the formula's definition.
    pub formula_span: S,
    /// The span of the formula's reference to the next formula of the cycle.
    pub dependency_span: S,
}

/// `entries` describe a cycle of `graph`: their formulas, in order, form a dependency cycle,
/// and each entry carries the name and span of its formula and the span of its reference to the
/// formula of the entry before it (the first entry: the last one). No formula occurs twice.
pub open spec fn describes_cycle<S: Span>(
    formulas: Seq<Formula<S, Expression<Identifier<S>, S>>>,
    graph: Seq<Seq<(usize, S)>>,
    entries: Seq<CyclicDependencyEntry<S>>,
) -> bool {
    exists|cycle: Seq<usize>|
        {
            &&& cycle.len() == entries.len()
            &&& #[trigger] is_dependency_cycle(graph, cycle)
            &&& cycle.no_duplicates()
            &&& forall|k: int|
                0 <= k < cycle.len() ==> entries[k].formula_name == formulas[#[trigger] cycle[k] as int].name
                    && entries[k].formula_span == formulas[cycle[k] as int].span
            &&& forall|k: int|
                1 <= k < cycle.len() ==> depends_at(
                    graph,
                    #[trigger] cycle[k],
                    cycle[k - 1],
                    entries[k].dependency_span,
                )
            &&& depends_at(graph, cycle[0], cycle.last(), entries[0].dependency_span)
        }
}

/// The number of `false` entries.
pub open spec fn unvisited_count(visited: Seq<bool>) -> nat
    decreases visited.len(),
{
    if visited.len() == 0 {
        0
    } else {
        unvisited_count(visited.drop_last()) + if visited.last() {
            0nat
        } else {
            1nat
        }
    }
}

proof fn lemma_unvisited_mark(visited: Seq<bool>, i: int)
    requires
        0 <= i < visited.len(),
        !visited[i],
    ensures
        unvisited_count(visited.update(i, true)) + 1 == unvisited_count(visited),
    decreases visited.len(),
{
    if i < visited.len() - 1 {
        assert(visited.update(i, true).drop_last() =~= visited.drop_last().update(i, true));
        lemma_unvisited_mark(visited.drop_last(), i);
    } else {
        assert(visited.update(i, true).drop_last() =~= visited.drop_last());
    }
}

proof fn lemma_unvisited_monotone(a: Seq<bool>, b: Seq<bool>)
    requires
        a.len() == b.len(),
        forall|j: int| 0 <= j < a.len() && a[j] ==> b[j],
    ensures
        unvisited_count(b) <= unvisited_count(a),
    decreases a.len(),
{
    if a.len() > 0 {
        lemma_unvisited_monotone(a.drop_last(), b.drop_last());
    }
}

/// `order` lists every formula exactly once, each one after every formula that it refers to:
/// expanding the formulas' definitions in this order only ever uses definitions that are
/// already expanded.
pub open spec fn is_expansion_ordering<S>(graph: Seq<Seq<(usize, S)>>, order: Seq<usize>) -> bool {
    &&& order.len() == graph.len()
    &&& forall|p: int| 0 <= p < order.len() ==> #[trigger] order[p] < graph.len()
    &&& forall|i: usize| i < graph.len() ==> #[trigger] appears_in(order, i)
    &&& forall|p: int, q: int|
        #![trigger order[p], order[q]]
        0 <= p < order.len() && 0 <= q < order.len() && p != q ==> order[p] != order[q]
    &&& forall|p: int, q: int|
        #![trigger order[p], order[q]]
        0 <= p < order.len() && 0 <= q < order.len() && depends_on(graph, order[p], order[q]) ==> q < p
}

/// Read backwards, an expansion ordering is a replacement ordering.
pub proof fn lemma_reversed_expansion<S>(graph: Seq<Seq<(usize, S)>>, order: Seq<usize>)
    requires
        is_expansion_ordering(graph, order),
    ensures
        is_replacement_ordering(graph, order.reverse()),
{
    let r = order.reverse();
    let len = order.len() as int;
    assert forall|x: usize| x < graph.len() implies #[trigger] appears_in(r, x) by {
        assert(appears_in(order, x));
        let q = choose|q: int| 0 <= q < order.len() && order[q] == x;
        assert(r[len - 1 - q] == x);
    }
    assert forall|a: int, b: int|
        #![trigger r[a], r[b]]
        0 <= a < r.len() && 0 <= b < r.len() && depends_on(graph, r[a], r[b]) implies a < b by {
        assert(r[a] == order[len - 1 - a]);
        assert(r[b] == order[len - 1 - b]);
    }
    assert forall|a: int, b: int|
        #![trigger r[a], r[b]]
        0 <= a < r.len() && 0 <= b < r.len() && a != b implies r[a] != r[b] by {
        assert(r[a] == order[len - 1 - a]);
        assert(r[b] == order[len - 1 - b]);
    }
    assert forall|a: int| 0 <= a < r.len() implies #[trigger] r[a] < graph.len() by {
        assert(r[a] == order[len - 1 - a]);
    }
}

/// The formula indices of `order` in reverse.
pub fn reversed_order(order: &Vec<usize>) -> (r: Vec<usize>)
    ensures
        r@ == order@.reverse(),
{
    let mut out: Vec<usize> = Vec::new();
    let mut p: usize = order.len();
    while p > 0
        invariant
            p <= order@.len(),
            out@.len() == order@.len() - p,
            forall|q: int| 0 <= q < out@.len() ==> #[trigger] out@[q] == order@[order@.len() - 1 - q],
        decreases p,
    {
        p = p - 1;
        out.push(order[p]);
    }
    assert(out@ =~= order@.reverse());
    out
}

/// In a replacement ordering the positions strictly decrease along a path of references
/// walked backwards.
proof fn lemma_ordering_positions<S>(
    graph: Seq<Seq<(usize, S)>>,
    order: Seq<usize>,
    cycle: Seq<usize>,
    pos: Seq<int>,
    k: int,
)
    requires
        is_replacement_ordering(graph, order),
        is_dependency_cycle(graph, cycle),
        pos.len() == cycle.len(),
        forall|j: int| 0 <= j < cycle.len() ==> 0 <= #[trigger] pos[j] < order.len() && order[pos[j]] == cycle[j],
        0 <= k < cycle.len(),
    ensures
        pos[k] <= pos[0] - k,
    decreases k,
{
    if k > 0 {
        lemma_ordering_positions(graph, order, cycle, pos, k - 1);
        assert(depends_on(graph, cycle[k], cycle[k - 1]));
        assert(order[pos[k]] == cycle[k]);
        assert(order[pos[k - 1]] == cycle[k - 1]);
    }
}

/// A replacement ordering exists only for dependencies without cycles.
pub proof fn lemma_ordering_excludes_cycle<S>(graph: Seq<Seq<(usize, S)>>, order: Seq<usize>)
    requires
        is_replacement_ordering(graph, order),
    ensures
        !has_dependency_cycle(graph),
{
    if has_dependency_cycle(graph) {
        let cycle = choose|cycle: Seq<usize>| #[trigger] is_dependency_cycle(graph, cycle);
        let pos = Seq::new(cycle.len(), |j: int| choose|p: int| 0 <= p < order.len() && order[p] == cycle[j]);
        assert forall|j: int| 0 <= j < cycle.len() implies 0 <= #[trigger] pos[j] < order.len() && order[pos[j]] == cycle[j] by {
            assert(cycle[j] < graph.len());
            assert(appears_in(order, cycle[j]));
        }
        let m = cycle.len() - 1;
        lemma_ordering_positions(graph, order, cycle, pos, m);
        assert(depends_on(graph, cycle[0], cycle[m]));
        assert(order[pos[0]] == cycle[0]);
        assert(order[pos[m]] == cycle[m]);
    }
}


proof fn lemma_unvisited_all<S>(visited: Seq<bool>, value: bool)
    requires
        forall|j: int| 0 <= j < visited.len() ==> visited[j] == value,
    ensures
        unvisited_count(visited) == if value {
            0
        } else {
            visited.len()
        },
    decreases visited.len(),
{
    if visited.len() > 0 {
        lemma_unvisited_all::<S>(visited.drop_last(), value);
    }
}

/// Every dependency in `graph` refers to a formula of `graph`.
pub open spec fn graph_bounded<S>(graph: Seq<Seq<(usize, S)>>) -> bool {
    forall|i: int, k: int|
        0 <= i < graph.len() && 0 <= k < graph[i].len() ==> (#[trigger] graph[i][k]).0 < graph.len()
}

/// `deps` holds, for each formula, its dependencies as in `graph`.
pub open spec fn dependencies_match<S>(deps: Seq<Vec<SpannedDependency<S>>>, graph: Seq<Seq<(usize, S)>>) -> bool {
    &&& deps.len() == graph.len()
    &&& forall|i: int| 0 <= i < deps.len() ==> dependency_pairs(#[trigger] deps[i]@) == graph[i]
}

/// Some formula at a position before `p` of `out` is `j`.
pub open spec fn emitted_before(out: Seq<usize>, p: int, j: usize) -> bool {
    exists|q: int| 0 <= q < p && out[q] == j
}

/// The state of the depth-first traversal of the dependency graph.
///
/// `path` is the chain of formulas being visited, each referring to the next one, with `spans`
/// holding the span of the reference into each formula of the chain (the first entry is
/// unused). `output` lists the completed formulas, each after the formulas it refers to.
struct Traversal<S> {
    visited: Vec<bool>,
    emitted: Vec<bool>,
    output: Vec<usize>,
    path: Vec<usize>,
    spans: Vec<S>,
}

spec fn traversal_ok<S>(t: Traversal<S>, graph: Seq<Seq<(usize, S)>>) -> bool {
    let n = graph.len();
    &&& t.visited@.len() == n
    &&& t.emitted@.len() == n
    &&& forall|i: int| 0 <= i < n && #[trigger] t.emitted@[i] ==> t.visited@[i]
    &&& forall|p: int| 0 <= p < t.output@.len() ==> #[trigger] t.output@[p] < n
    &&& forall|p: int, q: int|
        #![trigger t.output@[p], t.output@[q]]
        0 <= p < t.output@.len() && 0 <= q < t.output@.len() && p != q ==> t.output@[p] != t.output@[q]
    &&& forall|i: usize| i < n ==> (t.emitted@[i as int] <==> #[trigger] appears_in(t.output@, i))
    &&& t.output@.len() + unvisited_count(t.emitted@) == n
    &&& forall|p: int, k: int|
        0 <= p < t.output@.len() && 0 <= k < graph[t.output@[p] as int].len() ==> emitted_before(
            t.output@,
            p,
            #[trigger] graph[t.output@[p] as int][k].0,
        )
    &&& t.spans@.len() == t.path@.len()
    &&& forall|j: int| 0 <= j < t.path@.len() ==> #[trigger] t.path@[j] < n
    &&& t.path@.no_duplicates()
    &&& forall|i: usize|
        i < n ==> ((t.visited@[i as int] && !t.emitted@[i as int]) <==> #[trigger] appears_in(t.path@, i))
    &&& forall|j: int|
        1 <= j < t.path@.len() ==> depends_at(graph, t.path@[j - 1], #[trigger] t.path@[j], t.spans@[j])
}

/// Every `true` of `a` is a `true` of `b`.
spec fn grows(a: Seq<bool>, b: Seq<bool>) -> bool {
    a.len() == b.len() && forall|j: int| 0 <= j < a.len() && #[trigger] a[j] ==> b[j]
}

proof fn lemma_at_implies_on<S>(graph: Seq<Seq<(usize, S)>>, i: usize, j: usize, span: S)
    requires
        depends_at(graph, i, j, span),
    ensures
        depends_on(graph, i, j),
{
    let k = choose|k: int| 0 <= k < graph[i as int].len() && #[trigger] graph[i as int][k] == (j, span);
    assert(graph[i as int][k].0 == j);
}

/// The last `len` elements of a sequence without repetitions, read backwards from position
/// `t`, hold no repetition either.
proof fn lemma_reversed_part_distinct(path: Seq<usize>, t: int, len: int)
    requires
        path.no_duplicates(),
        0 <= len <= t + 1,
        t < path.len(),
    ensures
        Seq::new(len as nat, |r: int| path[t - r]).no_duplicates(),
{
    let cycle = Seq::new(len as nat, |r: int| path[t - r]);
    assert forall|a: int, b: int| 0 <= a < cycle.len() && 0 <= b < cycle.len() && a != b implies cycle[a] != cycle[b] by {
        assert(cycle[a] == path[t - a] && cycle[b] == path[t - b]);
    }
}

impl<S: Span> FormulaManager<S, Expression<Identifier<S>, S>> {
    /// The entries of the cycle closed by the reference (at `span`) of the last formula of
    /// `path` to the formula `target`, which lies on `path`: the formulas of `path` from the last
    /// one back to `target`.
    #[verifier::rlimit(40)]
    fn build_cycle(&self, path: &Vec<usize>, spans: &Vec<S>, target: usize, span: S) -> (r: CyclicDependency<S>)
        requires
            path@.len() > 0,
            spans@.len() == path@.len(),
            appears_in(path@, target),
            self.formulas@.len() == dependency_graph(self.formulas@).len(),
            forall|j: int| 0 <= j < path@.len() ==> #[trigger] path@[j] < self.formulas@.len(),
            path@.no_duplicates(),
            forall|j: int|
                1 <= j < path@.len() ==> depends_at(
                    dependency_graph(self.formulas@),
                    path@[j - 1],
                    #[trigger] path@[j],
                    spans@[j],
                ),
            depends_at(dependency_graph(self.formulas@), path@.last(), target, span),
        ensures
            describes_cycle(self.formulas@, dependency_graph(self.formulas@), r.entries@),
    {
        let ghost g = dependency_graph(self.formulas@);
        let ghost t = path@.len() - 1;
        let ghost m = choose|p: int| 0 <= p < path@.len() && path@[p] == target;
        let ghost first_span = span;
        let mut entries: Vec<CyclicDependencyEntry<S>> = Vec::new();
        let mut j: usize = path.len() - 1;
        let mut dependency_span = span;
        loop
            invariant_except_break
                m <= j <= t,
                t == path@.len() - 1,
                entries@.len() == t - j,
                dependency_span == if j == t {
                    first_span
                } else {
                    spans@[j + 1]
                },
            invariant
                0 <= m <= t,
                path@[m] == target,
                spans@.len() == path@.len(),
                forall|jj: int| 0 <= jj < path@.len() ==> #[trigger] path@[jj] < self.formulas@.len(),
                forall|r: int|
                    0 <= r < entries@.len() ==> {
                        &&& (#[trigger] entries@[r]).formula_name == self.formulas@[path@[t - r] as int].name
                        &&& entries@[r].formula_span == self.formulas@[path@[t - r] as int].span
                        &&& entries@[r].dependency_span == if r == 0 {
                            first_span
                        } else {
                            spans@[t - r + 1]
                        }
                    },
            ensures
                1 <= entries@.len() <= t + 1,
                path@[t - (entries@.len() - 1)] == target,
            decreases j,
        {
            let index = path[j];
            let entry = CyclicDependencyEntry {
                formula_name: self.formulas[index].name.duplicate(),
                formula_span: self.formulas[index].span.duplicate(),
                dependency_span,
            };
            entries.push(entry);
            if index == target {
                break;
            }
            dependency_span = spans[j].duplicate();
            j = j - 1;
        }
        proof {
            let len = entries@.len() as int;
            let cycle = Seq::new(len as nat, |r: int| path@[t - r]);
            assert forall|k: int| 1 <= k < cycle.len() implies depends_on(g, #[trigger] cycle[k], cycle[k - 1])
                && depends_at(g, cycle[k], cycle[k - 1], entries@[k].dependency_span) by {
                assert(depends_at(g, path@[t - k], path@[t - k + 1], spans@[t - k + 1]));
                lemma_at_implies_on(g, cycle[k], cycle[k - 1], spans@[t - k + 1]);
            }
            assert(cycle.last() == target);
            lemma_at_implies_on(g, cycle[0], cycle.last(), first_span);
            assert(is_dependency_cycle(g, cycle));
            lemma_reversed_part_distinct(path@, t, len);
            assert(forall|k: int| 0 <= k < cycle.len() ==> entries@[k].formula_name == self.formulas@[#[trigger] cycle[k] as int].name
                    && entries@[k].formula_span == self.formulas@[cycle[k] as int].span);
        }
        CyclicDependency { entries }
    }

    /// Visits formula `i` and, depth first, the formulas it refers to that were not visited yet;
    /// appends each formula to the output once all formulas it refers to are there. Fails if a
    /// reference leads back to a formula on the current path.
    fn visit(
        &self,
        deps: &Vec<Vec<SpannedDependency<S>>>,
        t: &mut Traversal<S>,
        i: usize,
        span_in: S,
    ) -> (r: Result<(), CyclicDependency<S>>)
        requires
            dependencies_match(deps@, dependency_graph(self.formulas@)),
            graph_bounded(dependency_graph(self.formulas@)),
            self.formulas@.len() == dependency_graph(self.formulas@).len(),
            traversal_ok(*old(t), dependency_graph(self.formulas@)),
            i < self.formulas@.len(),
            !old(t).visited@[i as int],
            old(t).path@.len() > 0 ==> depends_at(
                dependency_graph(self.formulas@),
                old(t).path@.last(),
                i,
                span_in,
            ),
        ensures
            match r {
                Ok(()) => {
                    &&& traversal_ok(*final(t), dependency_graph(self.formulas@))
                    &&& final(t).emitted@[i as int]
                    &&& final(t).path@ == old(t).path@
                    &&& final(t).spans@ == old(t).spans@
                    &&& grows(old(t).visited@, final(t).visited@)
                    &&& grows(old(t).emitted@, final(t).emitted@)
                },
                Err(c) => describes_cycle(self.formulas@, dependency_graph(self.formulas@), c.entries@),
            },
        decreases unvisited_count(old(t).visited@),
    {
        let ghost g = dependency_graph(self.formulas@);
        let ghost t0_visited = t.visited@;
        let ghost t0_emitted = t.emitted@;
        let ghost t0_path = t.path@;
        let ghost t0_spans = t.spans@;
        proof {
            lemma_unvisited_mark(t.visited@, i as int);
            assert(!appears_in(t.path@, i));
        }
        t.visited.set(i, true);
        t.path.push(i);
        t.spans.push(span_in);
        proof {
            assert forall|x: usize| x < g.len() implies ((t.visited@[x as int] && !t.emitted@[x as int])
                <==> #[trigger] appears_in(t.path@, x)) by {
                if x == i {
                    assert(t.path@[t.path@.len() - 1] == i);
                } else {
                    if appears_in(t.path@, x) {
                        let q = choose|q: int| 0 <= q < t.path@.len() && t.path@[q] == x;
                        assert(t0_path[q] == x);
                    }
                    if appears_in(t0_path, x) {
                        let q = choose|q: int| 0 <= q < t0_path.len() && t0_path[q] == x;
                        assert(t.path@[q] == x);
                    }
                }
            }
            assert forall|j: int|
                1 <= j < t.path@.len() implies depends_at(g, t.path@[j - 1], #[trigger] t.path@[j], t.spans@[j]) by {
                if j < t.path@.len() - 1 {
                    assert(t.path@[j] == t0_path[j]);
                    assert(t.path@[j - 1] == t0_path[j - 1]);
                    assert(t.spans@[j] == t0_spans[j]);
                }
            }
            assert(forall|x: int| 0 <= x < g.len() && #[trigger] t.emitted@[x] ==> t.visited@[x]);
        }
        let n_children = deps[i].len();
        let mut k: usize = 0;
        while k < n_children
            invariant
                g == dependency_graph(self.formulas@),
                dependencies_match(deps@, g),
                graph_bounded(g),
                self.formulas@.len() == g.len(),
                i < g.len(),
                n_children == g[i as int].len(),
                k <= n_children,
                traversal_ok(*t, g),
                t.path@ == t0_path.push(i),
                t.spans@ == t0_spans.push(span_in),
                t.visited@[i as int],
                !t.emitted@[i as int],
                grows(t0_visited, t.visited@),
                grows(t0_emitted, t.emitted@),
                unvisited_count(t.visited@) < unvisited_count(t0_visited),
                t0_visited == old(t).visited@,
                forall|k2: int| 0 <= k2 < k ==> t.emitted@[(#[trigger] g[i as int][k2]).0 as int],
            decreases n_children - k,
        {
            proof {
                assert(dependency_pairs(deps@[i as int]@)[k as int] == g[i as int][k as int]);
                assert(g[i as int][k as int].0 < g.len());
            }
            let c = deps[i][k].dependency;
            if t.emitted[c] {
                k = k + 1;
                continue;
            }
            if t.visited[c] {
                proof {
                    assert(appears_in(t.path@, c));
                    assert(t.path@.last() == i);
                    assert(depends_at(g, i, c, deps@[i as int]@[k as int].span)) by {
                        assert(g[i as int][k as int] == (c, deps@[i as int]@[k as int].span));
                    }
                }
                let span = deps[i][k].span.duplicate();
                let cycle = self.build_cycle(&t.path, &t.spans, c, span);
                return Err(cycle);
            }
            let span = deps[i][k].span.duplicate();
            proof {
                assert(g[i as int][k as int] == (c, span));
                assert(t.path@.last() == i);
            }
            let ghost before_visited = t.visited@;
            let ghost before_emitted = t.emitted@;
            match self.visit(deps, t, c, span) {
                Ok(()) => {},
                Err(e) => {
                    return Err(e);
                },
            }
            proof {
                lemma_unvisited_monotone(before_visited, t.visited@);
                assert forall|k2: int| 0 <= k2 < k + 1 implies t.emitted@[(#[trigger] g[i as int][k2]).0 as int] by {
                    if k2 < k {
                        assert(before_emitted[g[i as int][k2].0 as int]);
                    }
                }
                assert(!t.emitted@[i as int]) by {
                    assert(appears_in(t.path@, i)) by {
                        assert(t.path@[t.path@.len() - 1] == i);
                    }
                }
            }
            k = k + 1;
        }
        let ghost before_output = t.output@;
        let ghost before_emitted = t.emitted@;
        t.path.pop();
        t.spans.pop();
        proof {
            lemma_unvisited_mark(t.emitted@, i as int);
            assert(t.path@ =~= t0_path);
            assert(t.spans@ =~= t0_spans);
            assert(!appears_in(before_output, i));
        }
        t.emitted.set(i, true);
        t.output.push(i);
        proof {
            let p_new = before_output.len() as int;
            assert forall|p: int, q: int|
                #![trigger t.output@[p], t.output@[q]]
                0 <= p < t.output@.len() && 0 <= q < t.output@.len() && p != q implies t.output@[p] != t.output@[q] by {
                if p == p_new {
                    if t.output@[q] == i {
                        assert(before_output[q] == i);
                        assert(appears_in(before_output, i));
                    }
                } else if q == p_new {
                    if t.output@[p] == i {
                        assert(before_output[p] == i);
                        assert(appears_in(before_output, i));
                    }
                }
            }
            assert forall|x: usize| x < g.len() implies (t.emitted@[x as int] <==> #[trigger] appears_in(t.output@, x)) by {
                if x == i {
                    assert(t.output@[p_new] == i);
                } else {
                    if appears_in(t.output@, x) {
                        let q = choose|q: int| 0 <= q < t.output@.len() && t.output@[q] == x;
                        assert(before_output[q] == x);
                    }
                    if appears_in(before_output, x) {
                        let q = choose|q: int| 0 <= q < before_output.len() && before_output[q] == x;
                        assert(t.output@[q] == x);
                    }
                }
            }
            assert forall|p: int, k2: int|
                0 <= p < t.output@.len() && 0 <= k2 < g[t.output@[p] as int].len() implies emitted_before(
                t.output@,
                p,
                #[trigger] g[t.output@[p] as int][k2].0,
            ) by {
                if p == p_new {
                    let x = g[i as int][k2].0;
                    assert(before_emitted[x as int]);
                    assert(appears_in(before_output, x));
                    let q = choose|q: int| 0 <= q < before_output.len() && before_output[q] == x;
                    assert(t.output@[q] == x);
                } else {
                    assert(t.output@[p] == before_output[p]);
                    let x = g[t.output@[p] as int][k2].0;
                    assert(emitted_before(before_output, p, x));
                    let q = choose|q: int| 0 <= q < p && before_output[q] == x;
                    assert(t.output@[q] == x);
                }
            }
            assert forall|x: usize|
                x < g.len() implies ((t.visited@[x as int] && !t.emitted@[x as int]) <==> #[trigger] appears_in(t.path@, x)) by {
                if x != i {
                    if appears_in(t.path@, x) {
                        let q = choose|q: int| 0 <= q < t.path@.len() && t.path@[q] == x;
                        assert(t0_path.push(i)[q] == x);
                        assert(appears_in(t0_path.push(i), x));
                    }
                    if appears_in(t0_path.push(i), x) {
                        let q = choose|q: int| 0 <= q < t0_path.len() + 1 && t0_path.push(i)[q] == x;
                        assert(t.path@[q] == x);
                    }
                } else {
                    if appears_in(t.path@, i) {
                        let q = choose|q: int| 0 <= q < t.path@.len() && t.path@[q] == i;
                        assert(t0_path[q] == i);
                        assert(appears_in(t0_path, i));
                    }
                }
            }
            assert(forall|x: int| 0 <= x < g.len() && #[trigger] t.emitted@[x] ==> t.visited@[x]);
        }
        Ok(())
    }

    /// Returns an order in which the formulas can be expanded: each formula comes after all
    /// formulas that it refers to. For `a = 123 / 7`, `b = a / c` and `c = a * 2` this is
    /// `a`, `c`, `b`. Substituting formulas into an expression takes them in the reverse order.
    ///
    /// The order is the one in which a depth-first traversal of the references (from each
    /// formula in turn, references in the order of first occurrence) finishes the formulas.
    /// Fails with the cycle that the traversal runs into if the formulas depend on each other
    /// cyclically.
    pub fn get_formula_replacement_ordering(&self) -> (r: Result<Vec<usize>, CyclicDependency<S>>)
        ensures
            r is Ok <==> !has_dependency_cycle(dependency_graph(self.formulas@)),
            r matches Ok(order) ==> is_expansion_ordering(dependency_graph(self.formulas@), order@),
            r matches Err(c) ==> describes_cycle(
                self.formulas@,
                dependency_graph(self.formulas@),
                c.entries@,
            ),
    {
        let ghost g = dependency_graph(self.formulas@);
        let ghost names = formula_names(self.formulas@);
        let n = self.formulas.len();
        let mut deps: Vec<Vec<SpannedDependency<S>>> = Vec::new();
        let mut i: usize = 0;
        while i < n
            invariant
                n == self.formulas@.len(),
                g == dependency_graph(self.formulas@),
                i <= n,
                deps@.len() == i,
                forall|j: int| 0 <= j < i ==> dependency_pairs(#[trigger] deps@[j]@) == g[j],
            decreases n - i,
        {
            deps.push(self.dependencies_of(&self.formulas[i].condition));
            i = i + 1;
        }
        proof {
            assert forall|a: int, k: int| 0 <= a < g.len() && 0 <= k < g[a].len() implies (#[trigger] g[a][k]).0 < g.len() by {
                lemma_dependencies_bounded(Seq::empty(), variable_uses(self.formulas@[a].condition), names);
            }
        }
        let mut t = Traversal {
            visited: Vec::new(),
            emitted: Vec::new(),
            output: Vec::new(),
            path: Vec::new(),
            spans: Vec::new(),
        };
        let mut i: usize = 0;
        while i < n
            invariant
                i <= n,
                t.visited@.len() == i,
                t.emitted@.len() == i,
                forall|j: int| 0 <= j < i ==> !t.visited@[j] && !t.emitted@[j],
                t.output@.len() == 0,
                t.path@.len() == 0,
                t.spans@.len() == 0,
            decreases n - i,
        {
            t.visited.push(false);
            t.emitted.push(false);
            i = i + 1;
        }
        proof {
            lemma_unvisited_all::<S>(t.emitted@, false);
            assert forall|x: usize| x < g.len() implies (t.emitted@[x as int] <==> #[trigger] appears_in(t.output@, x)) by {}
            assert forall|x: usize| x < g.len() implies ((t.visited@[x as int] && !t.emitted@[x as int]) <==> #[trigger] appears_in(t.path@, x)) by {}
            assert(traversal_ok(t, g));
        }
        let mut i: usize = 0;
        while i < n
            invariant
                n == g.len(),
                g == dependency_graph(self.formulas@),
                self.formulas@.len() == g.len(),
                dependencies_match(deps@, g),
                graph_bounded(g),
                i <= n,
                traversal_ok(t, g),
                t.path@.len() == 0,
                forall|j: int| 0 <= j < i ==> #[trigger] t.emitted@[j],
            decreases n - i,
        {
            if !t.visited[i] {
                let ghost before = t.emitted@;
                match self.visit(&deps, &mut t, i, S::empty()) {
                    Ok(()) => {},
                    Err(e) => {
                        proof {
                            let cycle = choose|cycle: Seq<usize>| {
                                &&& cycle.len() == e.entries@.len()
                                &&& #[trigger] is_dependency_cycle(g, cycle)
                                &&& forall|k: int|
                                    0 <= k < cycle.len() ==> e.entries@[k].formula_name == self.formulas@[#[trigger] cycle[k] as int].name
                                        && e.entries@[k].formula_span == self.formulas@[cycle[k] as int].span
                                &&& forall|k: int|
                                    1 <= k < cycle.len() ==> depends_at(
                                        g,
                                        #[trigger] cycle[k],
                                        cycle[k - 1],
                                        e.entries@[k].dependency_span,
                                    )
                                &&& depends_at(g, cycle[0], cycle.last(), e.entries@[0].dependency_span)
                            };
                            assert(is_dependency_cycle(g, cycle));
                        }
                        return Err(e);
                    },
                }
                proof {
                    assert forall|j: int| 0 <= j < i + 1 implies #[trigger] t.emitted@[j] by {
                        if j < i {
                            assert(before[j]);
                        }
                    }
                }
            } else {
                proof {
                    assert(!appears_in(t.path@, i));
                    assert(t.emitted@[i as int]);
                }
            }
            i = i + 1;
        }
        proof {
            lemma_unvisited_all::<S>(t.emitted@, true);
        }
        proof {
            let out = t.output@;
            let len = out.len() as int;
            assert(len == n);
            assert forall|a: int, b: int|
                #![trigger out[a], out[b]]
                0 <= a < out.len() && 0 <= b < out.len() && depends_on(g, out[a], out[b]) implies b < a by {
                let x = out[a];
                let kk = choose|kk: int| 0 <= kk < g[x as int].len() && #[trigger] g[x as int][kk].0 == out[b];
                assert(emitted_before(out, a, g[out[a] as int][kk].0));
                let q = choose|q: int| 0 <= q < a && out[q] == g[out[a] as int][kk].0;
                if q != b {
                    assert(out[q] != out[b]);
                }
            }
            assert(is_expansion_ordering(g, out));
            lemma_reversed_expansion(g, out);
            lemma_ordering_excludes_cycle(g, out.reverse());
        }
        Ok(t.output)
    }
}

} // verus!
