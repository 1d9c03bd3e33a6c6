use crate::expressions::{children, copied, copy_node, lemma_children_decrease, mapped, names_target, substituted, substituted_in_turn, variable_uses, variable_uses_from, Expression};
use crate::formula_dependencies::{appears_in, dependencies_after, dependency_graph, dependency_step, depends_on, formula_dependencies, has_dependency, is_replacement_ordering};
use crate::formulas::{formula_names, Formula};
use crate::identifier::Identifier;
use crate::labels::Label;
use crate::names::{first_index_of, lemma_first_index_of_spec};
use crate::spans::Span;
use crate::substitution::{formula_steps, label_steps};
use vstd::prelude::*;

verus! {

/// Some use in `uses` refers to the name `m`.
pub open spec fn uses_name<S: Span>(uses: Seq<(Identifier<S>, S)>, m: Seq<char>) -> bool {
    exists|k: int| 0 <= k < uses.len() && #[trigger] uses[k].0.name@ == m
}

proof fn lemma_uses_name_concat<S: Span>(a: Seq<(Identifier<S>, S)>, b: Seq<(Identifier<S>, S)>, m: Seq<char>)
    ensures
        uses_name(a + b, m) <==> (uses_name(a, m) || uses_name(b, m)),
{
    if uses_name(a + b, m) {
        let k = choose|k: int| 0 <= k < (a + b).len() && #[trigger] (a + b)[k].0.name@ == m;
        if k < a.len() {
            assert(a[k] == (a + b)[k]);
        } else {
            assert(b[k - a.len()] == (a + b)[k]);
        }
    }
    if uses_name(a, m) {
        let k = choose|k: int| 0 <= k < a.len() && #[trigger] a[k].0.name@ == m;
        assert((a + b)[k] == a[k]);
    }
    if uses_name(b, m) {
        let k = choose|k: int| 0 <= k < b.len() && #[trigger] b[k].0.name@ == m;
        assert((a + b)[k + a.len()] == b[k]);
    }
}

/// The uses of the children of `e` from position `i` on name `m` exactly when one of those
/// children's uses does.
proof fn lemma_uses_from_name<S: Span>(e: Expression<Identifier<S>, S>, i: int, m: Seq<char>)
    requires
        0 <= i <= children(e).len(),
    ensures
        uses_name(variable_uses_from(e, i), m) <==> exists|j: int|
            i <= j < children(e).len() && #[trigger] uses_name(variable_uses(children(e)[j]), m),
    decreases children(e).len() - i,
{
    if i < children(e).len() {
        lemma_uses_from_name(e, i + 1, m);
        lemma_uses_name_concat(variable_uses(children(e)[i]), variable_uses_from(e, i + 1), m);
    } else {
        assert(variable_uses_from(e, i) =~= Seq::<(Identifier<S>, S)>::empty());
    }
}

/// The uses of an expression that is neither a variable nor a label are those of its children.
pub(crate) proof fn lemma_uses_inner<S: Span>(e: Expression<Identifier<S>, S>, m: Seq<char>)
    requires
        !(e is VarOrConst),
        !(e is Label),
    ensures
        uses_name(variable_uses(e), m) <==> exists|j: int|
            0 <= j < children(e).len() && #[trigger] uses_name(variable_uses(children(e)[j]), m),
{
    lemma_uses_from_name(e, 0, m);
}

/// A copy refers to the same names as the original.
pub proof fn lemma_copied_uses<S: Span>(e: Expression<Identifier<S>, S>, r: Expression<Identifier<S>, S>, m: Seq<char>)
    requires
        copied(e, r),
    ensures
        uses_name(variable_uses(r), m) ==> uses_name(variable_uses(e), m),
    decreases e,
{
    assert(copy_node()(e, r));
    if e is VarOrConst {
        assert(r is VarOrConst);
        assert(variable_uses(r)[0].0 == variable_uses(e)[0].0);
    } else if e is Label {
        assert(r is Label);
        assert(variable_uses(r) =~= Seq::<(Identifier<S>, S)>::empty());
    } else {
        assert(!(r is VarOrConst) && !(r is Label));
        lemma_uses_inner(e, m);
        lemma_uses_inner(r, m);
        if uses_name(variable_uses(r), m) {
            let j = choose|j: int| 0 <= j < children(r).len() && #[trigger] uses_name(variable_uses(children(r)[j]), m);
            lemma_children_decrease(e, j);
            assert(mapped(children(e)[j], children(r)[j], copy_node()));
            lemma_copied_uses(children(e)[j], children(r)[j], m);
            assert(uses_name(variable_uses(children(e)[j]), m));
        }
    }
}

/// After substituting `replacement` for the variable `name`, an expression refers to a name
/// only if the original did and the name is not `name`, or the replacement does.
pub proof fn lemma_substituted_uses<S: Span>(
    e: Expression<Identifier<S>, S>,
    r: Expression<Identifier<S>, S>,
    name: Seq<char>,
    replacement: Expression<Identifier<S>, S>,
    m: Seq<char>,
)
    requires
        substituted(e, r, name, replacement, false),
    ensures
        uses_name(variable_uses(r), m) ==> (uses_name(variable_uses(e), m) && m != name) || uses_name(
            variable_uses(replacement),
            m,
        ),
    decreases e,
{
    if names_target(e, name, false) {
        lemma_copied_uses(replacement, r, m);
    } else {
        assert(copy_node()(e, r));
        if e is VarOrConst {
            assert(r is VarOrConst);
            assert(variable_uses(r)[0].0 == variable_uses(e)[0].0);
            if uses_name(variable_uses(r), m) {
                assert(variable_uses(r)[0].0.name@ == m);
                assert(variable_uses(e)[0].0.name@ == m);
            }
        } else if e is Label {
            assert(r is Label);
            assert(variable_uses(r) =~= Seq::<(Identifier<S>, S)>::empty());
        } else {
            assert(!(r is VarOrConst) && !(r is Label));
            lemma_uses_inner(e, m);
            lemma_uses_inner(r, m);
            if uses_name(variable_uses(r), m) {
                let j = choose|j: int|
                    0 <= j < children(r).len() && #[trigger] uses_name(variable_uses(children(r)[j]), m);
                lemma_children_decrease(e, j);
                assert(substituted(children(e)[j], children(r)[j], name, replacement, false));
                lemma_substituted_uses(children(e)[j], children(r)[j], name, replacement, m);
                if uses_name(variable_uses(children(e)[j]), m) {
                    assert(uses_name(variable_uses(e), m));
                }
            }
        }
    }
}

proof fn lemma_dependency_kept<S: Span>(
    deps: Seq<(usize, S)>,
    uses: Seq<(Identifier<S>, S)>,
    names: Seq<Seq<char>>,
    i: usize,
)
    requires
        has_dependency(deps, i),
    ensures
        has_dependency(dependencies_after(deps, uses, names), i),
    decreases uses.len(),
{
    if uses.len() > 0 {
        lemma_dependency_kept(deps, uses.drop_last(), names, i);
        let prev = dependencies_after(deps, uses.drop_last(), names);
        let k = choose|k: int| 0 <= k < prev.len() && #[trigger] prev[k].0 == i;
        assert(dependency_step(prev, uses.last(), names)[k] == prev[k]);
    }
}

/// Every name that an expression uses and that names a formula makes that formula a dependency.
proof fn lemma_use_is_dependency<S: Span>(
    deps: Seq<(usize, S)>,
    uses: Seq<(Identifier<S>, S)>,
    names: Seq<Seq<char>>,
    m: Seq<char>,
)
    requires
        uses_name(uses, m),
        first_index_of(names, m) is Some,
    ensures
        has_dependency(dependencies_after(deps, uses, names), first_index_of(names, m)->0 as usize),
    decreases uses.len(),
{
    let i = first_index_of(names, m)->0 as usize;
    let prev = dependencies_after(deps, uses.drop_last(), names);
    if uses.last().0.name@ == m {
        if !has_dependency(prev, i) {
            assert(dependency_step(prev, uses.last(), names)[prev.len() as int].0 == i);
        }
    } else {
        let k = choose|k: int| 0 <= k < uses.len() && #[trigger] uses[k].0.name@ == m;
        assert(uses.drop_last()[k] == uses[k]);
        lemma_use_is_dependency(deps, uses.drop_last(), names, m);
        let w = choose|w: int| 0 <= w < prev.len() && #[trigger] prev[w].0 == i;
        assert(dependency_step(prev, uses.last(), names)[w] == prev[w]);
    }
}

/// Substituting the formulas in a replacement ordering leaves no reference to any formula: no
/// variable of the result is named like a formula.
pub proof fn law_substitution_removes_formulas<S: Span>(
    formulas: Seq<Formula<S, Expression<Identifier<S>, S>>>,
    order: Seq<usize>,
    e: Expression<Identifier<S>, S>,
    r: Expression<Identifier<S>, S>,
    m: Seq<char>,
)
    requires
        formulas.len() <= usize::MAX,
        is_replacement_ordering(dependency_graph(formulas), order),
        substituted_in_turn(e, r, formula_steps(formulas, order), false),
        formula_names(formulas).contains(m),
    ensures
        !uses_name(variable_uses(r), m),
{
    let names = formula_names(formulas);
    let g = dependency_graph(formulas);
    let steps = formula_steps(formulas, order);
    let n = order.len() as int;
    let chain = choose|chain: Seq<Expression<Identifier<S>, S>>|
        {
            &&& chain.len() == steps.len() + 1
            &&& chain[0] == e
            &&& chain.last() == r
            &&& forall|k: int|
                0 <= k < steps.len() ==> substituted(
                    #[trigger] chain[k],
                    chain[k + 1],
                    steps[k].0,
                    steps[k].1,
                    false,
                )
        };
    // the position of each formula in the order
    let pos = |x: usize| choose|p: int| 0 <= p < order.len() && order[p] == x;
    assert forall|x: usize| x < g.len() implies 0 <= #[trigger] pos(x) < order.len() && order[pos(x)] == x by {
        assert(appears_in(order, x));
    }
    // invariant: after `k` steps, every formula name used is that of a formula at position >= k
    let inv = |k: int|
        forall|mm: Seq<char>|
            #![trigger uses_name(variable_uses(chain[k]), mm)]
            uses_name(variable_uses(chain[k]), mm) && names.contains(mm) ==> pos(first_index_of(names, mm)->0 as usize) >= k;
    assert forall|k: int| 0 <= k <= n implies #[trigger] inv(k) by {
        lemma_inv_holds(formulas, order, chain, pos, k);
    }
    assert(inv(n));
    if uses_name(variable_uses(r), m) {
        lemma_first_index_of_spec(names, m);
        let f = first_index_of(names, m)->0 as usize;
        assert(f < g.len());
        assert(pos(f) >= n);
    }
}

proof fn lemma_inv_holds<S: Span>(
    formulas: Seq<Formula<S, Expression<Identifier<S>, S>>>,
    order: Seq<usize>,
    chain: Seq<Expression<Identifier<S>, S>>,
    pos: spec_fn(usize) -> int,
    k: int,
)
    requires
        formulas.len() <= usize::MAX,
        is_replacement_ordering(dependency_graph(formulas), order),
        chain.len() == order.len() + 1,
        forall|j: int|
            0 <= j < order.len() ==> substituted(
                #[trigger] chain[j],
                chain[j + 1],
                formula_steps(formulas, order)[j].0,
                formula_steps(formulas, order)[j].1,
                false,
            ),
        forall|x: usize| x < formulas.len() ==> 0 <= #[trigger] pos(x) < order.len() && order[pos(x)] == x,
        0 <= k <= order.len(),
    ensures
        forall|mm: Seq<char>|
            #![trigger uses_name(variable_uses(chain[k]), mm)]
            uses_name(variable_uses(chain[k]), mm) && formula_names(formulas).contains(mm) ==> pos(
                first_index_of(formula_names(formulas), mm)->0 as usize,
            ) >= k,
    decreases k,
{
    let names = formula_names(formulas);
    let g = dependency_graph(formulas);
    if k > 0 {
        lemma_inv_holds(formulas, order, chain, pos, k - 1);
        let f = order[k - 1];
        assert(f < g.len());
        let step = formula_steps(formulas, order)[k - 1];
        assert(step.0 == formulas[f as int].name.name@);
        assert(step.1 == formulas[f as int].condition);
        assert forall|mm: Seq<char>|
            #![trigger uses_name(variable_uses(chain[k]), mm)]
            uses_name(variable_uses(chain[k]), mm) && names.contains(mm) implies pos(first_index_of(names, mm)->0 as usize) >= k by {
            lemma_first_index_of_spec(names, mm);
            let x = first_index_of(names, mm)->0 as usize;
            assert(x < g.len());
            lemma_substituted_uses(chain[k - 1], chain[k], step.0, step.1, mm);
            if uses_name(variable_uses(chain[k - 1]), mm) && mm != step.0 {
                assert(pos(x) >= k - 1);
                if pos(x) == k - 1 {
                    assert(order[pos(x)] == x);
                    assert(names[x as int] == mm);
                    assert(names[f as int] == step.0);
                }
            } else {
                // the reference comes from the condition of formula `f`, which depends on `x`
                lemma_use_is_dependency(Seq::empty(), variable_uses(formulas[f as int].condition), names, mm);
                assert(g[f as int] == formula_dependencies(formulas[f as int].condition, names));
                let w = choose|w: int| 0 <= w < g[f as int].len() && #[trigger] g[f as int][w].0 == x;
                assert(depends_on(g, f, x));
                assert(order[k - 1] == f && order[pos(x)] == x);
                assert(depends_on(g, order[k - 1], order[pos(x)]));
            }
        }
        assert(forall|mm: Seq<char>|
            #![trigger uses_name(variable_uses(chain[k]), mm)]
            uses_name(variable_uses(chain[k]), mm) && formula_names(formulas).contains(mm) ==> pos(
                first_index_of(formula_names(formulas), mm)->0 as usize,
            ) >= k);
    } else {
        assert forall|mm: Seq<char>|
            #![trigger uses_name(variable_uses(chain[k]), mm)]
            uses_name(variable_uses(chain[k]), mm) && names.contains(mm) implies pos(first_index_of(names, mm)->0 as usize) >= k by {
            lemma_first_index_of_spec(names, mm);
            assert(names.len() == formulas.len());
            let x = first_index_of(names, mm)->0 as usize;
            assert(x < formulas.len());
            assert(0 <= pos(x));
        }
    }
}


/// Some label in `e` is named `m`.
pub open spec fn mentions_label<S: Span>(e: Expression<Identifier<S>, S>, m: Seq<char>) -> bool
    decreases e, children(e).len() + 1,
{
    names_target(e, m, true) || mentions_label_from(e, m, 0)
}

/// Some label in the direct subexpressions of `e` from position `i` on is named `m`.
pub open spec fn mentions_label_from<S: Span>(e: Expression<Identifier<S>, S>, m: Seq<char>, i: int) -> bool
    decreases e, children(e).len() - i,
{
    if 0 <= i < children(e).len() {
        proof {
            lemma_children_decrease(e, i);
        }
        mentions_label(children(e)[i], m) || mentions_label_from(e, m, i + 1)
    } else {
        false
    }
}

proof fn lemma_mentions_from<S: Span>(e: Expression<Identifier<S>, S>, m: Seq<char>, i: int)
    requires
        0 <= i <= children(e).len(),
    ensures
        mentions_label_from(e, m, i) <==> exists|j: int|
            i <= j < children(e).len() && #[trigger] mentions_label(children(e)[j], m),
    decreases children(e).len() - i,
{
    if i < children(e).len() {
        lemma_mentions_from(e, m, i + 1);
        if mentions_label(children(e)[i], m) {
            assert(mentions_label_from(e, m, i));
        }
        if exists|j: int| i <= j < children(e).len() && #[trigger] mentions_label(children(e)[j], m) {
            let j = choose|j: int| i <= j < children(e).len() && #[trigger] mentions_label(children(e)[j], m);
            if j > i {
                assert(mentions_label_from(e, m, i + 1));
            }
        }
    }
}

/// A copy names the same labels as the original.
proof fn lemma_copied_mentions<S: Span>(e: Expression<Identifier<S>, S>, r: Expression<Identifier<S>, S>, m: Seq<char>)
    requires
        copied(e, r),
    ensures
        mentions_label(r, m) ==> mentions_label(e, m),
    decreases e,
{
    assert(copy_node()(e, r));
    assert(children(r).len() == children(e).len());
    lemma_mentions_from(e, m, 0);
    lemma_mentions_from(r, m, 0);
    if mentions_label(r, m) && !names_target(r, m, true) {
        let j = choose|j: int| 0 <= j < children(r).len() && #[trigger] mentions_label(children(r)[j], m);
        lemma_children_decrease(e, j);
        assert(mapped(children(e)[j], children(r)[j], copy_node()));
        lemma_copied_mentions(children(e)[j], children(r)[j], m);
        assert(mentions_label(children(e)[j], m));
    }
}

/// After substituting the label `name` by `replacement`, a label named `m` remains only where
/// it stood before and is not `name`, or where the replacement names it.
proof fn lemma_substituted_mentions<S: Span>(
    e: Expression<Identifier<S>, S>,
    r: Expression<Identifier<S>, S>,
    name: Seq<char>,
    replacement: Expression<Identifier<S>, S>,
    m: Seq<char>,
)
    requires
        substituted(e, r, name, replacement, true),
    ensures
        mentions_label(r, m) ==> (mentions_label(e, m) && m != name) || mentions_label(replacement, m),
    decreases e,
{
    if names_target(e, name, true) {
        lemma_copied_mentions(replacement, r, m);
    } else {
        assert(copy_node()(e, r));
        assert(children(r).len() == children(e).len());
        lemma_mentions_from(e, m, 0);
        lemma_mentions_from(r, m, 0);
        if mentions_label(r, m) {
            if names_target(r, m, true) {
                assert(names_target(e, m, true));
            } else {
                let j = choose|j: int| 0 <= j < children(r).len() && #[trigger] mentions_label(children(r)[j], m);
                lemma_children_decrease(e, j);
                assert(substituted(children(e)[j], children(r)[j], name, replacement, true));
                lemma_substituted_mentions(children(e)[j], children(r)[j], name, replacement, m);
                if mentions_label(children(e)[j], m) {
                    assert(mentions_label(e, m));
                }
            }
        }
    }
}

/// Along a chain of label substitutions, once label `i` is substituted its name stays gone, as
/// long as no condition from `i` on uses it.
proof fn lemma_label_gone_after<S: Span>(
    labels: Seq<Label<S, Expression<Identifier<S>, S>>>,
    chain: Seq<Expression<Identifier<S>, S>>,
    i: int,
    k: int,
)
    requires
        0 <= i < k <= labels.len(),
        chain.len() == labels.len() + 1,
        forall|j: int| 0 <= j < labels.len() ==> substituted(
            #[trigger] chain[j],
            chain[j + 1],
            label_steps(labels)[j].0,
            label_steps(labels)[j].1,
            true,
        ),
        forall|j: int| i <= j < labels.len() ==> !mentions_label(#[trigger] labels[j].condition, labels[i].name.name@),
    ensures
        !mentions_label(chain[k], labels[i].name.name@),
    decreases k,
{
    let m = labels[i].name.name@;
    let j = k - 1;
    assert(substituted(chain[j], chain[j + 1], label_steps(labels)[j].0, label_steps(labels)[j].1, true));
    lemma_substituted_mentions(chain[j], chain[j + 1], label_steps(labels)[j].0, labels[j].condition, m);
    if j > i {
        lemma_label_gone_after(labels, chain, i, j);
    }
}

/// Substituting the labels in turn expands each label whose name no label from it on uses:
/// after the substitution no label of that name remains.
pub proof fn law_label_substitution_removes_label<S: Span>(
    labels: Seq<Label<S, Expression<Identifier<S>, S>>>,
    e: Expression<Identifier<S>, S>,
    r: Expression<Identifier<S>, S>,
    i: int,
)
    requires
        substituted_in_turn(e, r, label_steps(labels), true),
        0 <= i < labels.len(),
        forall|j: int| i <= j < labels.len() ==> !mentions_label(#[trigger] labels[j].condition, labels[i].name.name@),
    ensures
        !mentions_label(r, labels[i].name.name@),
{
    let steps = label_steps(labels);
    let m = labels[i].name.name@;
    let chain = choose|chain: Seq<Expression<Identifier<S>, S>>|
        {
            &&& chain.len() == steps.len() + 1
            &&& chain[0] == e
            &&& chain.last() == r
            &&& forall|k: int|
                0 <= k < steps.len() ==> substituted(
                    #[trigger] chain[k],
                    chain[k + 1],
                    steps[k].0,
                    steps[k].1,
                    true,
                )
        };
    let n = labels.len() as int;
    lemma_label_gone_after(labels, chain, i, n);
    assert(chain.last() == chain[n]);
}

} // verus!
