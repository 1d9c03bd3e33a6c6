use crate::expressions::{copied, span_of, Duplicate, Expression};
use crate::identifier::Identifier;
use crate::model::Model;
use crate::spans::Span;
use crate::variables::{VariableInfo, VariableRange, VariableReference};
use vstd::prelude::*;

verus! {

/// How an expression refers to the variable with the given information and index.
pub trait VariableIdentifierProvider<S: Span, E>: Sized {
    /// The reference to variable `index`, described by `info`.
    spec fn identifier_for(info: VariableInfo<S, E>, index: usize) -> Self;

    /// Returns the reference to variable `index`, described by `info`.
    fn get_variable_identifier(info: &VariableInfo<S, E>, index: usize) -> (r: Self)
        ensures
            r == Self::identifier_for(*info, index),
    ;
}

impl<S: Span, E> VariableIdentifierProvider<S, E> for VariableReference {
    open spec fn identifier_for(info: VariableInfo<S, E>, index: usize) -> Self {
        VariableReference { index }
    }

    fn get_variable_identifier(info: &VariableInfo<S, E>, index: usize) -> (r: Self) {
        VariableReference::new(index)
    }
}

impl<S: Span, E> VariableIdentifierProvider<S, E> for Identifier<S> {
    open spec fn identifier_for(info: VariableInfo<S, E>, index: usize) -> Self {
        info.name
    }

    fn get_variable_identifier(info: &VariableInfo<S, E>, index: usize) -> (r: Self) {
        info.name.duplicate()
    }
}

/// A variable (not a constant) without initial value.
pub open spec fn needs_initial_value<S: Span, E>(v: VariableInfo<S, E>) -> bool {
    !v.is_constant && v.initial_value is None
}

/// The variable can be given an implicit initial value: it does not need one, or it is a
/// bounded integer or a boolean.
pub open spec fn has_implicit_initial_value<S: Span, E>(v: VariableInfo<S, E>) -> bool {
    needs_initial_value(v) ==> (v.range is BoundedInt || v.range is Boolean)
}

/// `w` is `v` with its implicit initial value made explicit: a copy of the lower bound for a
/// bounded integer, `false` (spanned by the type) for a boolean.
pub open spec fn initial_value_added<V, S: Span>(
    v: VariableInfo<S, Expression<V, S>>,
    w: VariableInfo<S, Expression<V, S>>,
) -> bool {
    if needs_initial_value(v) {
        &&& w == (VariableInfo { initial_value: w.initial_value, ..v })
        &&& match v.range {
            VariableRange::BoundedInt { min, .. } => w.initial_value matches Some(i) && copied(min, i),
            VariableRange::Boolean { span } => w.initial_value == Some(Expression::<V, S>::Bool(false, span)),
            _ => false,
        }
    } else {
        w == v
    }
}

/// The init constraint equivalent to the initial values of the first `k` variables: the
/// conjunction, in order, of `x = value` for every variable `x` that is not a constant, each
/// spanned by `span` and each conjunction by the span of its left operand.
pub open spec fn init_block<V: VariableIdentifierProvider<S, Expression<V, S>>, S: Span>(
    vars: Seq<VariableInfo<S, Expression<V, S>>>,
    k: int,
    span: S,
) -> Option<Expression<V, S>>
    decreases k,
{
    if k <= 0 {
        None
    } else {
        let prev = init_block(vars, k - 1, span);
        let v = vars[k - 1];
        if v.is_constant {
            prev
        } else {
            let id = V::identifier_for(VariableInfo { initial_value: None, ..v }, (k - 1) as usize);
            let c = Expression::Equals(
                Box::new(Expression::VarOrConst(id, span)),
                Box::new(v.initial_value->0),
                span,
            );
            match prev {
                None => Some(c),
                Some(p) => Some(Expression::Conjunction(Box::new(p), Box::new(c), span_of(p))),
            }
        }
    }
}

impl<V: Duplicate, S: Span, A> Model<V, S, Expression<V, S>, A> {
    /// Gives every variable (not constant) without initial value its implicit one: the lower
    /// bound for a bounded integer, `false` for a boolean. Everything else is kept.
    ///
    /// The model must not have an init constraint, and every such variable must be a bounded
    /// integer or a boolean.
    pub fn add_missing_init_statements(&mut self)
        requires
            old(self).init_constraint is None,
            forall|i: int|
                0 <= i < old(self).variable_manager.variables@.len() ==> has_implicit_initial_value(
                    #[trigger] old(self).variable_manager.variables@[i],
                ),
        ensures
            *final(self) == (Model { variable_manager: final(self).variable_manager, ..*old(self) }),
            final(self).variable_manager.variables@.len() == old(self).variable_manager.variables@.len(),
            forall|i: int|
                0 <= i < old(self).variable_manager.variables@.len() ==> initial_value_added(
                    #[trigger] old(self).variable_manager.variables@[i],
                    final(self).variable_manager.variables@[i],
                ),
    {
        let mut variables: Vec<VariableInfo<S, Expression<V, S>>> = Vec::new();
        std::mem::swap(&mut variables, &mut self.variable_manager.variables);
        let ghost orig = variables@;
        let mut out: Vec<VariableInfo<S, Expression<V, S>>> = Vec::new();
        let mut rest = variables;
        assert(orig.skip(0) =~= orig);
        while rest.len() > 0
            invariant
                forall|i: int| 0 <= i < orig.len() ==> has_implicit_initial_value(#[trigger] orig[i]),
                out@.len() <= orig.len(),
                rest@ == orig.skip(out@.len() as int),
                forall|i: int| 0 <= i < out@.len() ==> initial_value_added(#[trigger] orig[i], out@[i]),
            decreases rest.len(),
        {
            let ghost k = out@.len() as int;
            proof {
                assert(orig.skip(k).drop_first() =~= orig.skip(k + 1));
                assert(has_implicit_initial_value(orig[k]));
            }
            let variable = rest.remove(0);
            if !variable.is_constant && variable.initial_value.is_none() {
                let ghost v0 = variable;
                let value = match &variable.range {
                    VariableRange::BoundedInt { min, .. } => min.deep_copy(),
                    VariableRange::Boolean { span } => Expression::Bool(false, span.duplicate()),
                    _ => {
                        proof {
                            assert(false);
                        }
                        Expression::Bool(false, S::empty())
                    },
                };
                let mut variable = variable;
                variable.initial_value = Some(value);
                proof {
                    assert(variable == (VariableInfo { initial_value: variable.initial_value, ..v0 }));
                }
                out.push(variable);
            } else {
                out.push(variable);
            }
        }
        self.variable_manager.variables = out;
    }
}

impl<V: Duplicate + VariableIdentifierProvider<S, Expression<V, S>>, S: Span, A> Model<V, S, Expression<V, S>, A> {
    /// Replaces the initial values of the variables by an equivalent init constraint: the
    /// conjunction of `x = value` over all variables `x` (not constants), after making implicit
    /// initial values explicit. The initial values are removed.
    ///
    /// The model must not have an init constraint yet, and every variable without initial value
    /// must be a bounded integer or a boolean.
    pub fn init_statements_to_init_block(&mut self)
        requires
            old(self).init_constraint is None,
            forall|i: int|
                0 <= i < old(self).variable_manager.variables@.len() ==> has_implicit_initial_value(
                    #[trigger] old(self).variable_manager.variables@[i],
                ),
        ensures
            *final(self) == (Model {
                variable_manager: final(self).variable_manager,
                init_constraint: final(self).init_constraint,
                ..*old(self)
            }),
            exists|mid: Seq<VariableInfo<S, Expression<V, S>>>|
                {
                    &&& mid.len() == old(self).variable_manager.variables@.len()
                    &&& forall|i: int|
                        0 <= i < mid.len() ==> initial_value_added(
                            #[trigger] old(self).variable_manager.variables@[i],
                            mid[i],
                        )
                    &&& final(self).variable_manager.variables@.len() == mid.len()
                    &&& forall|i: int|
                        0 <= i < mid.len() ==> #[trigger] final(self).variable_manager.variables@[i] == if mid[i].is_constant {
                            mid[i]
                        } else {
                            VariableInfo { initial_value: None, ..mid[i] }
                        }
                    &&& final(self).init_constraint == init_block(mid, mid.len() as int, old(self).span)
                },
    {
        let ghost vars0 = self.variable_manager.variables@;
        self.add_missing_init_statements();
        let ghost mid = self.variable_manager.variables@;
        proof {
            assert forall|i: int| 0 <= i < mid.len() implies !(#[trigger] mid[i]).is_constant ==> mid[i].initial_value is Some by {
                assert(initial_value_added(vars0[i], mid[i]));
            }
        }
        let mut variables: Vec<VariableInfo<S, Expression<V, S>>> = Vec::new();
        std::mem::swap(&mut variables, &mut self.variable_manager.variables);
        let mut out: Vec<VariableInfo<S, Expression<V, S>>> = Vec::new();
        let mut rest = variables;
        let mut init_constraint: Option<Expression<V, S>> = None;
        assert(mid.skip(0) =~= mid);
        while rest.len() > 0
            invariant
                forall|i: int| 0 <= i < mid.len() ==> !(#[trigger] mid[i]).is_constant ==> mid[i].initial_value is Some,
                out@.len() <= mid.len(),
                rest@ == mid.skip(out@.len() as int),
                forall|i: int|
                    0 <= i < out@.len() ==> #[trigger] out@[i] == if mid[i].is_constant {
                        mid[i]
                    } else {
                        VariableInfo { initial_value: None, ..mid[i] }
                    },
                init_constraint == init_block(mid, out@.len() as int, self.span),
            decreases rest.len(),
        {
            let ghost k = out@.len() as int;
            proof {
                assert(mid.skip(k).drop_first() =~= mid.skip(k + 1));
            }
            let index = out.len();
            let variable = rest.remove(0);
            if variable.is_constant {
                out.push(variable);
            } else {
                let mut variable = variable;
                let value = match variable.initial_value {
                    Some(value) => value,
                    None => {
                        proof {
                            assert(false);
                        }
                        return;
                    },
                };
                variable.initial_value = None;
                let identifier = V::get_variable_identifier(&variable, index);
                let constraint = Expression::Equals(
                    Box::new(Expression::VarOrConst(identifier, self.span.duplicate())),
                    Box::new(value),
                    self.span.duplicate(),
                );
                init_constraint = match init_constraint {
                    None => Some(constraint),
                    Some(previous) => {
                        let span = previous.span().duplicate();
                        Some(Expression::Conjunction(Box::new(previous), Box::new(constraint), span))
                    },
                };
                out.push(variable);
            }
        }
        self.variable_manager.variables = out;
        self.init_constraint = init_constraint;
    }
}


/// The conjuncts of a conjunction built to the left: `(c1 & c2) & c3` gives `c1, c2, c3`.
pub open spec fn left_conjuncts<V, S: Span>(e: Expression<V, S>) -> Seq<Expression<V, S>>
    decreases e,
{
    match e {
        Expression::Conjunction(p, c, _) => left_conjuncts(*p).push(*c),
        _ => seq![e],
    }
}

/// The indices, in increasing order, of the variables among the first `k` that are not
/// constants.
pub open spec fn variable_indices<S: Span, E>(vars: Seq<VariableInfo<S, E>>, k: int) -> Seq<int>
    decreases k,
{
    if k <= 0 {
        Seq::empty()
    } else if vars[k - 1].is_constant {
        variable_indices(vars, k - 1)
    } else {
        variable_indices(vars, k - 1).push(k - 1)
    }
}

/// The indices of the variables among the first `k` are increasing, and are exactly those of
/// the variables that are not constants.
pub proof fn lemma_variable_indices<S: Span, E>(vars: Seq<VariableInfo<S, E>>, k: int)
    requires
        0 <= k <= vars.len(),
    ensures
        forall|a: int, b: int|
            0 <= a < b < variable_indices(vars, k).len() ==> variable_indices(vars, k)[a] < variable_indices(vars, k)[b],
        forall|j: int|
            0 <= j < variable_indices(vars, k).len() ==> 0 <= #[trigger] variable_indices(vars, k)[j] < k
                && !vars[variable_indices(vars, k)[j]].is_constant,
        forall|i: int| 0 <= i < k && !vars[i].is_constant ==> #[trigger] variable_indices(vars, k).contains(i),
    decreases k,
{
    if k > 0 {
        lemma_variable_indices(vars, k - 1);
        let p = variable_indices(vars, k - 1);
        assert forall|i: int| 0 <= i < k && !vars[i].is_constant implies #[trigger] variable_indices(vars, k).contains(i) by {
            if i < k - 1 {
                assert(p.contains(i));
                let w = choose|w: int| 0 <= w < p.len() && p[w] == i;
                if !vars[k - 1].is_constant {
                    assert(variable_indices(vars, k)[w] == i);
                }
            } else {
                assert(variable_indices(vars, k)[p.len() as int] == i);
            }
        }
    }
}

/// The conjunct `x = value` of the init block for the variable at `i`, named `x`.
pub open spec fn is_conjunct_for<V, S: Span>(c: Expression<V, S>, x: V, value: Expression<V, S>) -> bool {
    c matches Expression::Equals(l, r, _) && *r == value && match *l {
        Expression::VarOrConst(y, _) => y == x,
        _ => false,
    }
}

proof fn lemma_init_block_conjuncts<V: VariableIdentifierProvider<S, Expression<V, S>>, S: Span>(
    vars: Seq<VariableInfo<S, Expression<V, S>>>,
    k: int,
    span: S,
)
    requires
        0 <= k <= vars.len(),
    ensures
        init_block(vars, k, span) is None <==> variable_indices(vars, k).len() == 0,
        init_block(vars, k, span) matches Some(e) ==> left_conjuncts(e).len() == variable_indices(vars, k).len()
            && forall|j: int|
            0 <= j < left_conjuncts(e).len() ==> is_conjunct_for(
                #[trigger] left_conjuncts(e)[j],
                V::identifier_for(
                    VariableInfo { initial_value: None, ..vars[variable_indices(vars, k)[j]] },
                    variable_indices(vars, k)[j] as usize,
                ),
                vars[variable_indices(vars, k)[j]].initial_value->0,
            ),
    decreases k,
{
    if k > 0 {
        lemma_init_block_conjuncts(vars, k - 1, span);
        let idx = variable_indices(vars, k);
        let p = variable_indices(vars, k - 1);
        if !vars[k - 1].is_constant {
            assert(idx[p.len() as int] == k - 1);
            if let Some(e) = init_block(vars, k, span) {
                let lc = left_conjuncts(e);
                assert forall|j: int| 0 <= j < lc.len() implies is_conjunct_for(
                    #[trigger] lc[j],
                    V::identifier_for(VariableInfo { initial_value: None, ..vars[idx[j]] }, idx[j] as usize),
                    vars[idx[j]].initial_value->0,
                ) by {
                    if j < p.len() {
                        assert(idx[j] == p[j]);
                    }
                }
            }
        }
    }
}

/// In a model whose variables are referred to by index, the init block has one conjunct for
/// each variable that is not a constant, in order, and the conjunct for the variable at index
/// `i` is `i = value`, with the variable's own initial value: each conjunct refers to its own
/// variable, so distinct variables give conjuncts over distinct references.
pub proof fn law_init_block_refers_by_index<S: Span>(
    vars: Seq<VariableInfo<S, Expression<VariableReference, S>>>,
    k: int,
    span: S,
)
    requires
        0 <= k <= vars.len(),
    ensures
        init_block(vars, k, span) is None <==> forall|i: int| 0 <= i < k ==> vars[i].is_constant,
        init_block(vars, k, span) matches Some(e) ==> {
            &&& left_conjuncts(e).len() == variable_indices(vars, k).len()
            &&& forall|j: int|
                0 <= j < left_conjuncts(e).len() ==> is_conjunct_for(
                    #[trigger] left_conjuncts(e)[j],
                    VariableReference { index: variable_indices(vars, k)[j] as usize },
                    vars[variable_indices(vars, k)[j]].initial_value->0,
                )
        },
        forall|a: int, b: int|
            0 <= a < b < variable_indices(vars, k).len() ==> variable_indices(vars, k)[a] < variable_indices(vars, k)[b],
        forall|i: int| 0 <= i < k && !vars[i].is_constant ==> #[trigger] variable_indices(vars, k).contains(i),
        forall|j: int|
            0 <= j < variable_indices(vars, k).len() ==> 0 <= #[trigger] variable_indices(vars, k)[j] < k
                && !vars[variable_indices(vars, k)[j]].is_constant,
{
    lemma_init_block_conjuncts(vars, k, span);
    lemma_variable_indices(vars, k);
    let idx = variable_indices(vars, k);
    if idx.len() == 0 {
        assert forall|i: int| 0 <= i < k implies vars[i].is_constant by {
            if !vars[i].is_constant {
                assert(idx.contains(i));
            }
        }
    } else {
        assert(!vars[idx[0]].is_constant);
    }
}

/// In a model whose variables are referred to by name, the conjunct of the init block for the
/// variable at index `i` is `x = value` where `x` is that variable's own name and value its own
/// initial value.
pub proof fn law_init_block_refers_by_name<S: Span>(
    vars: Seq<VariableInfo<S, Expression<Identifier<S>, S>>>,
    k: int,
    span: S,
)
    requires
        0 <= k <= vars.len(),
    ensures
        init_block(vars, k, span) matches Some(e) ==> {
            &&& left_conjuncts(e).len() == variable_indices(vars, k).len()
            &&& forall|j: int|
                0 <= j < left_conjuncts(e).len() ==> is_conjunct_for(
                    #[trigger] left_conjuncts(e)[j],
                    vars[variable_indices(vars, k)[j]].name,
                    vars[variable_indices(vars, k)[j]].initial_value->0,
                )
        },
{
    lemma_init_block_conjuncts(vars, k, span);
}

} // verus!
