use crate::expressions::{children, kind, lemma_children_decrease, literal_eq, mapped, occurrences, occurrences_from, span_of, Expression, UnknownVariableError};
use crate::identifier::Identifier;
use crate::names::{first_index_of, lemma_first_index_of_spec};
use crate::spans::Span;
use crate::variables::{variable_names, VariableManager, VariableRange, VariableReference};
use vstd::prelude::*;

verus! {

/// The reference that replaces a variable named `name`: the first variable of that name among
/// `names`, or index 0 when there is none (the replacement then also reports an error).
pub open spec fn reference_for(names: Seq<Seq<char>>, name: Seq<char>) -> VariableReference {
    match first_index_of(names, name) {
        Some(i) => VariableReference { index: i as usize },
        None => VariableReference { index: 0 },
    }
}

/// The node relation of [`Expression::replace_identifiers_by_variable_indices`]: every variable
/// and label becomes the reference of its name; literals, function names and spans are kept.
pub open spec fn index_node<S: Span>(names: Seq<Seq<char>>) -> spec_fn(
    Expression<Identifier<S>, S>,
    Expression<VariableReference, S>,
) -> bool {
    |e: Expression<Identifier<S>, S>, r: Expression<VariableReference, S>|
        {
            &&& kind(r) == kind(e)
            &&& span_of(r) == span_of(e)
            &&& literal_eq(e, r)
            &&& (e matches Expression::VarOrConst(a, _) ==> r->VarOrConst_0 == reference_for(names, a.name@))
            &&& (e matches Expression::Label(a, _) ==> r->Label_0 == reference_for(names, a.name@))
            &&& (e matches Expression::Function(a, _, _) ==> r->Function_0 == a)
        }
}

/// An identifier whose name is none of `names`.
pub open spec fn is_unknown<S: Span>(names: Seq<Seq<char>>) -> spec_fn(Identifier<S>) -> bool {
    |id: Identifier<S>| !names.contains(id.name@)
}

/// The variables and labels of `e` whose names are none of `names`, from left to right.
pub open spec fn unknown_occurrences<S: Span>(
    e: Expression<Identifier<S>, S>,
    names: Seq<Seq<char>>,
) -> Seq<Identifier<S>> {
    occurrences(e).filter(is_unknown(names))
}

/// The identifiers that a list of errors reports, in order.
pub open spec fn error_identifiers<S: Span>(errors: Seq<UnknownVariableError<S>>) -> Seq<
    Identifier<S>,
> {
    errors.map_values(|e: UnknownVariableError<S>| e.identifier)
}

proof fn lemma_filter_empty<A>(p: spec_fn(A) -> bool)
    ensures
        Seq::<A>::empty().filter(p) == Seq::<A>::empty(),
{
    reveal(Seq::filter);
}

proof fn lemma_filter_one<A>(x: A, p: spec_fn(A) -> bool)
    ensures
        seq![x].filter(p) == (if p(x) { seq![x] } else { Seq::<A>::empty() }),
{
    reveal_with_fuel(Seq::filter, 2);
    assert(seq![x].drop_last() =~= Seq::<A>::empty());
}

proof fn lemma_unknown_step<S: Span>(e: Expression<Identifier<S>, S>, i: int, names: Seq<Seq<char>>)
    requires
        0 <= i < children(e).len(),
    ensures
        occurrences_from(e, i).filter(is_unknown(names)) == unknown_occurrences(children(e)[i], names)
            + occurrences_from(e, i + 1).filter(is_unknown(names)),
{
    Seq::filter_distributes_over_add(
        occurrences(children(e)[i]),
        occurrences_from(e, i + 1),
        is_unknown(names),
    );
}

proof fn lemma_error_push<S: Span>(errors: Seq<UnknownVariableError<S>>, e: UnknownVariableError<S>)
    ensures
        error_identifiers(errors.push(e)) == error_identifiers(errors).push(e.identifier),
{
    assert(error_identifiers(errors.push(e)) =~= error_identifiers(errors).push(e.identifier));
}

impl<S: Span> Expression<Identifier<S>, S> {
    /// Replaces every variable and label by the reference of its name in `variable_manager`,
    /// appending an error to `errors` for each name it does not hold.
    pub(crate) fn index_into<R>(
        &self,
        variable_manager: &VariableManager<S, R>,
        errors: &mut Vec<UnknownVariableError<S>>,
    ) -> (r: Expression<VariableReference, S>)
        ensures
            mapped(*self, r, index_node(variable_names(variable_manager.variables@))),
            error_identifiers(final(errors)@) == error_identifiers(old(errors)@)
                + unknown_occurrences(*self, variable_names(variable_manager.variables@)),
        decreases self,
    {
        let ghost names = variable_names(variable_manager.variables@);
        let ghost p = is_unknown::<S>(names);
        let ghost e0 = *self;
        let ghost start = error_identifiers(errors@);
        match self {
            Expression::Int(x0, xs) => {
                proof {
                    lemma_filter_empty(p);
                    assert(start + unknown_occurrences(e0, names) =~= start);
                }
                Expression::Int(*x0, xs.duplicate())
            },
            Expression::Float(x0, xs) => {
                proof {
                    lemma_filter_empty(p);
                    assert(start + unknown_occurrences(e0, names) =~= start);
                }
                Expression::Float(*x0, xs.duplicate())
            },
            Expression::Bool(x0, xs) => {
                proof {
                    lemma_filter_empty(p);
                    assert(start + unknown_occurrences(e0, names) =~= start);
                }
                Expression::Bool(*x0, xs.duplicate())
            },
            Expression::VarOrConst(x0, xs) => {
                proof {
                    lemma_first_index_of_spec(names, x0.name@);
                    lemma_filter_one(*x0, p);
                }
                let reference = match variable_manager.get_reference(x0) {
                    Some(reference) => {
                        assert(start + unknown_occurrences(e0, names) =~= start);
                        reference
                    },
                    None => {
                        let error = UnknownVariableError { identifier: x0.duplicate() };
                        proof {
                            lemma_error_push(errors@, error);
                            assert(start + unknown_occurrences(e0, names) =~= start.push(*x0));
                        }
                        errors.push(error);
                        VariableReference::new(0)
                    },
                };
                Expression::VarOrConst(reference, xs.duplicate())
            },
            Expression::Label(x0, xs) => {
                proof {
                    lemma_first_index_of_spec(names, x0.name@);
                    lemma_filter_one(*x0, p);
                }
                let reference = match variable_manager.get_reference(x0) {
                    Some(reference) => {
                        assert(start + unknown_occurrences(e0, names) =~= start);
                        reference
                    },
                    None => {
                        let error = UnknownVariableError { identifier: x0.duplicate() };
                        proof {
                            lemma_error_push(errors@, error);
                            assert(start + unknown_occurrences(e0, names) =~= start.push(*x0));
                        }
                        errors.push(error);
                        VariableReference::new(0)
                    },
                };
                Expression::Label(reference, xs.duplicate())
            },
            Expression::Function(x0, x1, xs) => {
                let mut out: Vec<Expression<VariableReference, S>> = Vec::new();
                let mut i: usize = 0;
                while i < x1.len()
                    invariant
                        i <= x1@.len(),
                        e0 == *self,
                        e0 is Function,
                        children(e0) == x1@,
                        names == variable_names(variable_manager.variables@),
                        p == is_unknown::<S>(names),
                        out@.len() == i,
                        forall|j: int| 0 <= j < i ==> mapped(x1@[j], #[trigger] out@[j], index_node(names)),
                        error_identifiers(errors@) + occurrences_from(e0, i as int).filter(p)
                            == start + unknown_occurrences(e0, names),
                    decreases x1.len() - i,
                {
                    proof {
                        lemma_children_decrease(e0, i as int);
                        lemma_unknown_step(e0, i as int, names);
                    }
                    let ghost before = error_identifiers(errors@);
                    let c = x1[i].index_into(variable_manager, errors);
                    proof {
                        assert(error_identifiers(errors@) + occurrences_from(e0, i + 1).filter(p)
                            =~= before + occurrences_from(e0, i as int).filter(p));
                    }
                    out.push(c);
                    i = i + 1;
                }
                proof {
                    lemma_filter_empty(p);
                    assert(error_identifiers(errors@) =~= start + unknown_occurrences(e0, names));
                }
                let r = Expression::Function(x0.duplicate(), out, xs.duplicate());
                assert(children(r) == out@);
                r
            },
            Expression::Minus(x0, xs) => {
                proof { lemma_children_decrease(e0, 0); }
                let ghost before0 = error_identifiers(errors@);
                let y0 = x0.index_into(variable_manager, errors);
                proof {
                    lemma_unknown_step(e0, 0, names);
                    lemma_filter_empty(p);
                    assert(unknown_occurrences(e0, names) =~= unknown_occurrences(children(e0)[0], names));
                    assert(error_identifiers(errors@) =~= start + unknown_occurrences(e0, names));
                }
                Expression::Minus(Box::new(y0), xs.duplicate())
            },
            Expression::Multiplication(x0, x1, xs) => {
                proof { lemma_children_decrease(e0, 0); }
                let ghost before0 = error_identifiers(errors@);
                let y0 = x0.index_into(variable_manager, errors);
                proof { lemma_children_decrease(e0, 1); }
                let ghost before1 = error_identifiers(errors@);
                let y1 = x1.index_into(variable_manager, errors);
                proof {
                    lemma_unknown_step(e0, 0, names);
                    lemma_unknown_step(e0, 1, names);
                    lemma_filter_empty(p);
                    assert(unknown_occurrences(e0, names) =~= unknown_occurrences(children(e0)[0], names) + unknown_occurrences(children(e0)[1], names));
                    assert(error_identifiers(errors@) =~= start + unknown_occurrences(e0, names));
                }
                Expression::Multiplication(Box::new(y0), Box::new(y1), xs.duplicate())
            },
            Expression::Division(x0, x1, xs) => {
                proof { lemma_children_decrease(e0, 0); }
                let ghost before0 = error_identifiers(errors@);
                let y0 = x0.index_into(variable_manager, errors);
                proof { lemma_children_decrease(e0, 1); }
                let ghost before1 = error_identifiers(errors@);
                let y1 = x1.index_into(variable_manager, errors);
                proof {
                    lemma_unknown_step(e0, 0, names);
                    lemma_unknown_step(e0, 1, names);
                    lemma_filter_empty(p);
                    assert(unknown_occurrences(e0, names) =~= unknown_occurrences(children(e0)[0], names) + unknown_occurrences(children(e0)[1], names));
                    assert(error_identifiers(errors@) =~= start + unknown_occurrences(e0, names));
                }
                Expression::Division(Box::new(y0), Box::new(y1), xs.duplicate())
            },
            Expression::Addition(x0, x1, xs) => {
                proof { lemma_children_decrease(e0, 0); }
                let ghost before0 = error_identifiers(errors@);
                let y0 = x0.index_into(variable_manager, errors);
                proof { lemma_children_decrease(e0, 1); }
                let ghost before1 = error_identifiers(errors@);
                let y1 = x1.index_into(variable_manager, errors);
                proof {
                    lemma_unknown_step(e0, 0, names);
                    lemma_unknown_step(e0, 1, names);
                    lemma_filter_empty(p);
                    assert(unknown_occurrences(e0, names) =~= unknown_occurrences(children(e0)[0], names) + unknown_occurrences(children(e0)[1], names));
                    assert(error_identifiers(errors@) =~= start + unknown_occurrences(e0, names));
                }
                Expression::Addition(Box::new(y0), Box::new(y1), xs.duplicate())
            },
            Expression::Subtraction(x0, x1, xs) => {
                proof { lemma_children_decrease(e0, 0); }
                let ghost before0 = error_identifiers(errors@);
                let y0 = x0.index_into(variable_manager, errors);
                proof { lemma_children_decrease(e0, 1); }
                let ghost before1 = error_identifiers(errors@);
                let y1 = x1.index_into(variable_manager, errors);
                proof {
                    lemma_unknown_step(e0, 0, names);
                    lemma_unknown_step(e0, 1, names);
                    lemma_filter_empty(p);
                    assert(unknown_occurrences(e0, names) =~= unknown_occurrences(children(e0)[0], names) + unknown_occurrences(children(e0)[1], names));
                    assert(error_identifiers(errors@) =~= start + unknown_occurrences(e0, names));
                }
                Expression::Subtraction(Box::new(y0), Box::new(y1), xs.duplicate())
            },
            Expression::LessThan(x0, x1, xs) => {
                proof { lemma_children_decrease(e0, 0); }
                let ghost before0 = error_identifiers(errors@);
                let y0 = x0.index_into(variable_manager, errors);
                proof { lemma_children_decrease(e0, 1); }
                let ghost before1 = error_identifiers(errors@);
                let y1 = x1.index_into(variable_manager, errors);
                proof {
                    lemma_unknown_step(e0, 0, names);
                    lemma_unknown_step(e0, 1, names);
                    lemma_filter_empty(p);
                    assert(unknown_occurrences(e0, names) =~= unknown_occurrences(children(e0)[0], names) + unknown_occurrences(children(e0)[1], names));
                    assert(error_identifiers(errors@) =~= start + unknown_occurrences(e0, names));
                }
                Expression::LessThan(Box::new(y0), Box::new(y1), xs.duplicate())
            },
            Expression::LessOrEqual(x0, x1, xs) => {
                proof { lemma_children_decrease(e0, 0); }
                let ghost before0 = error_identifiers(errors@);
                let y0 = x0.index_into(variable_manager, errors);
                proof { lemma_children_decrease(e0, 1); }
                let ghost before1 = error_identifiers(errors@);
                let y1 = x1.index_into(variable_manager, errors);
                proof {
                    lemma_unknown_step(e0, 0, names);
                    lemma_unknown_step(e0, 1, names);
                    lemma_filter_empty(p);
                    assert(unknown_occurrences(e0, names) =~= unknown_occurrences(children(e0)[0], names) + unknown_occurrences(children(e0)[1], names));
                    assert(error_identifiers(errors@) =~= start + unknown_occurrences(e0, names));
                }
                Expression::LessOrEqual(Box::new(y0), Box::new(y1), xs.duplicate())
            },
            Expression::GreaterThan(x0, x1, xs) => {
                proof { lemma_children_decrease(e0, 0); }
                let ghost before0 = error_identifiers(errors@);
                let y0 = x0.index_into(variable_manager, errors);
                proof { lemma_children_decrease(e0, 1); }
                let ghost before1 = error_identifiers(errors@);
                let y1 = x1.index_into(variable_manager, errors);
                proof {
                    lemma_unknown_step(e0, 0, names);
                    lemma_unknown_step(e0, 1, names);
                    lemma_filter_empty(p);
                    assert(unknown_occurrences(e0, names) =~= unknown_occurrences(children(e0)[0], names) + unknown_occurrences(children(e0)[1], names));
                    assert(error_identifiers(errors@) =~= start + unknown_occurrences(e0, names));
                }
                Expression::GreaterThan(Box::new(y0), Box::new(y1), xs.duplicate())
            },
            Expression::GreaterOrEqual(x0, x1, xs) => {
                proof { lemma_children_decrease(e0, 0); }
                let ghost before0 = error_identifiers(errors@);
                let y0 = x0.index_into(variable_manager, errors);
                proof { lemma_children_decrease(e0, 1); }
                let ghost before1 = error_identifiers(errors@);
                let y1 = x1.index_into(variable_manager, errors);
                proof {
                    lemma_unknown_step(e0, 0, names);
                    lemma_unknown_step(e0, 1, names);
                    lemma_filter_empty(p);
                    assert(unknown_occurrences(e0, names) =~= unknown_occurrences(children(e0)[0], names) + unknown_occurrences(children(e0)[1], names));
                    assert(error_identifiers(errors@) =~= start + unknown_occurrences(e0, names));
                }
                Expression::GreaterOrEqual(Box::new(y0), Box::new(y1), xs.duplicate())
            },
            Expression::Equals(x0, x1, xs) => {
                proof { lemma_children_decrease(e0, 0); }
                let ghost before0 = error_identifiers(errors@);
                let y0 = x0.index_into(variable_manager, errors);
                proof { lemma_children_decrease(e0, 1); }
                let ghost before1 = error_identifiers(errors@);
                let y1 = x1.index_into(variable_manager, errors);
                proof {
                    lemma_unknown_step(e0, 0, names);
                    lemma_unknown_step(e0, 1, names);
                    lemma_filter_empty(p);
                    assert(unknown_occurrences(e0, names) =~= unknown_occurrences(children(e0)[0], names) + unknown_occurrences(children(e0)[1], names));
                    assert(error_identifiers(errors@) =~= start + unknown_occurrences(e0, names));
                }
                Expression::Equals(Box::new(y0), Box::new(y1), xs.duplicate())
            },
            Expression::NotEquals(x0, x1, xs) => {
                proof { lemma_children_decrease(e0, 0); }
                let ghost before0 = error_identifiers(errors@);
                let y0 = x0.index_into(variable_manager, errors);
                proof { lemma_children_decrease(e0, 1); }
                let ghost before1 = error_identifiers(errors@);
                let y1 = x1.index_into(variable_manager, errors);
                proof {
                    lemma_unknown_step(e0, 0, names);
                    lemma_unknown_step(e0, 1, names);
                    lemma_filter_empty(p);
                    assert(unknown_occurrences(e0, names) =~= unknown_occurrences(children(e0)[0], names) + unknown_occurrences(children(e0)[1], names));
                    assert(error_identifiers(errors@) =~= start + unknown_occurrences(e0, names));
                }
                Expression::NotEquals(Box::new(y0), Box::new(y1), xs.duplicate())
            },
            Expression::Negation(x0, xs) => {
                proof { lemma_children_decrease(e0, 0); }
                let ghost before0 = error_identifiers(errors@);
                let y0 = x0.index_into(variable_manager, errors);
                proof {
                    lemma_unknown_step(e0, 0, names);
                    lemma_filter_empty(p);
                    assert(unknown_occurrences(e0, names) =~= unknown_occurrences(children(e0)[0], names));
                    assert(error_identifiers(errors@) =~= start + unknown_occurrences(e0, names));
                }
                Expression::Negation(Box::new(y0), xs.duplicate())
            },
            Expression::Conjunction(x0, x1, xs) => {
                proof { lemma_children_decrease(e0, 0); }
                let ghost before0 = error_identifiers(errors@);
                let y0 = x0.index_into(variable_manager, errors);
                proof { lemma_children_decrease(e0, 1); }
                let ghost before1 = error_identifiers(errors@);
                let y1 = x1.index_into(variable_manager, errors);
                proof {
                    lemma_unknown_step(e0, 0, names);
                    lemma_unknown_step(e0, 1, names);
                    lemma_filter_empty(p);
                    assert(unknown_occurrences(e0, names) =~= unknown_occurrences(children(e0)[0], names) + unknown_occurrences(children(e0)[1], names));
                    assert(error_identifiers(errors@) =~= start + unknown_occurrences(e0, names));
                }
                Expression::Conjunction(Box::new(y0), Box::new(y1), xs.duplicate())
            },
            Expression::Disjunction(x0, x1, xs) => {
                proof { lemma_children_decrease(e0, 0); }
                let ghost before0 = error_identifiers(errors@);
                let y0 = x0.index_into(variable_manager, errors);
                proof { lemma_children_decrease(e0, 1); }
                let ghost before1 = error_identifiers(errors@);
                let y1 = x1.index_into(variable_manager, errors);
                proof {
                    lemma_unknown_step(e0, 0, names);
                    lemma_unknown_step(e0, 1, names);
                    lemma_filter_empty(p);
                    assert(unknown_occurrences(e0, names) =~= unknown_occurrences(children(e0)[0], names) + unknown_occurrences(children(e0)[1], names));
                    assert(error_identifiers(errors@) =~= start + unknown_occurrences(e0, names));
                }
                Expression::Disjunction(Box::new(y0), Box::new(y1), xs.duplicate())
            },
            Expression::IfAndOnlyIf(x0, x1, xs) => {
                proof { lemma_children_decrease(e0, 0); }
                let ghost before0 = error_identifiers(errors@);
                let y0 = x0.index_into(variable_manager, errors);
                proof { lemma_children_decrease(e0, 1); }
                let ghost before1 = error_identifiers(errors@);
                let y1 = x1.index_into(variable_manager, errors);
                proof {
                    lemma_unknown_step(e0, 0, names);
                    lemma_unknown_step(e0, 1, names);
                    lemma_filter_empty(p);
                    assert(unknown_occurrences(e0, names) =~= unknown_occurrences(children(e0)[0], names) + unknown_occurrences(children(e0)[1], names));
                    assert(error_identifiers(errors@) =~= start + unknown_occurrences(e0, names));
                }
                Expression::IfAndOnlyIf(Box::new(y0), Box::new(y1), xs.duplicate())
            },
            Expression::Implies(x0, x1, xs) => {
                proof { lemma_children_decrease(e0, 0); }
                let ghost before0 = error_identifiers(errors@);
                let y0 = x0.index_into(variable_manager, errors);
                proof { lemma_children_decrease(e0, 1); }
                let ghost before1 = error_identifiers(errors@);
                let y1 = x1.index_into(variable_manager, errors);
                proof {
                    lemma_unknown_step(e0, 0, names);
                    lemma_unknown_step(e0, 1, names);
                    lemma_filter_empty(p);
                    assert(unknown_occurrences(e0, names) =~= unknown_occurrences(children(e0)[0], names) + unknown_occurrences(children(e0)[1], names));
                    assert(error_identifiers(errors@) =~= start + unknown_occurrences(e0, names));
                }
                Expression::Implies(Box::new(y0), Box::new(y1), xs.duplicate())
            },
            Expression::Ternary(x0, x1, x2, xs) => {
                proof { lemma_children_decrease(e0, 0); }
                let ghost before0 = error_identifiers(errors@);
                let y0 = x0.index_into(variable_manager, errors);
                proof { lemma_children_decrease(e0, 1); }
                let ghost before1 = error_identifiers(errors@);
                let y1 = x1.index_into(variable_manager, errors);
                proof { lemma_children_decrease(e0, 2); }
                let ghost before2 = error_identifiers(errors@);
                let y2 = x2.index_into(variable_manager, errors);
                proof {
                    lemma_unknown_step(e0, 0, names);
                    lemma_unknown_step(e0, 1, names);
                    lemma_unknown_step(e0, 2, names);
                    lemma_filter_empty(p);
                    assert(unknown_occurrences(e0, names) =~= unknown_occurrences(children(e0)[0], names) + unknown_occurrences(children(e0)[1], names) + unknown_occurrences(children(e0)[2], names));
                    assert(error_identifiers(errors@) =~= start + unknown_occurrences(e0, names));
                }
                Expression::Ternary(Box::new(y0), Box::new(y1), Box::new(y2), xs.duplicate())
            },
        }
    }

    /// Replaces every variable and label by a reference to the variable of that name in
    /// `variable_manager` (the first one, should there be several).
    ///
    /// Fails with one [`UnknownVariableError`] for each occurrence (from left to right) of a name
    /// that `variable_manager` does not hold; this includes formulas that were not substituted.
    pub fn replace_identifiers_by_variable_indices<R>(
        self,
        variable_manager: &VariableManager<S, R>,
    ) -> (r: Result<Expression<VariableReference, S>, Vec<UnknownVariableError<S>>>)
        ensures
            r is Ok <==> unknown_occurrences(self, variable_names(variable_manager.variables@)).len()
                == 0,
            r matches Ok(x) ==> mapped(self, x, index_node(variable_names(variable_manager.variables@))),
            r matches Err(errs) ==> error_identifiers(errs@) == unknown_occurrences(
                self,
                variable_names(variable_manager.variables@),
            ),
    {
        let mut errors: Vec<UnknownVariableError<S>> = Vec::new();
        proof {
            assert(error_identifiers(errors@) =~= Seq::<Identifier<S>>::empty());
        }
        let r = self.index_into(variable_manager, &mut errors);
        proof {
            assert(error_identifiers(errors@) =~= unknown_occurrences(
                self,
                variable_names(variable_manager.variables@),
            ));
        }
        if errors.len() > 0 {
            Err(errors)
        } else {
            Ok(r)
        }
    }
}

/// The unknown names in the bounds of a variable range, lower bound first.
pub open spec fn range_unknowns<S: Span>(
    r: VariableRange<S, Expression<Identifier<S>, S>>,
    names: Seq<Seq<char>>,
) -> Seq<Identifier<S>> {
    match r {
        VariableRange::BoundedInt { min, max, .. } => unknown_occurrences(min, names)
            + unknown_occurrences(max, names),
        _ => Seq::empty(),
    }
}

/// `b` is `a` with the variables of its bounds replaced by references (as
/// [`Expression::replace_identifiers_by_variable_indices`] does); spans are kept.
pub open spec fn range_indexed<S: Span>(
    a: VariableRange<S, Expression<Identifier<S>, S>>,
    b: VariableRange<S, Expression<VariableReference, S>>,
    names: Seq<Seq<char>>,
) -> bool {
    match (a, b) {
        (
            VariableRange::BoundedInt { min, max, span },
            VariableRange::BoundedInt { min: min2, max: max2, span: span2 },
        ) => mapped(min, min2, index_node(names)) && mapped(max, max2, index_node(names)) && span2
            == span,
        (VariableRange::UnboundedInt { span }, VariableRange::UnboundedInt { span: span2 }) => span2
            == span,
        (VariableRange::Boolean { span }, VariableRange::Boolean { span: span2 }) => span2 == span,
        (VariableRange::Float { span }, VariableRange::Float { span: span2 }) => span2 == span,
        _ => false,
    }
}

impl<S: Span> VariableRange<S, Expression<Identifier<S>, S>> {
    /// Replaces the variables in the bounds by references to the variables of
    /// `variable_manager`, as [`Expression::replace_identifiers_by_variable_indices`] does.
    ///
    /// Fails with the unknown names of both bounds (lower bound first) if there are any.
    pub fn replace_identifiers_by_variable_indices(
        &self,
        variable_manager: &VariableManager<S, Expression<Identifier<S>, S>>,
    ) -> (r: Result<VariableRange<S, Expression<VariableReference, S>>, Vec<UnknownVariableError<S>>>)
        ensures
            r is Ok <==> range_unknowns(*self, variable_names(variable_manager.variables@)).len() == 0,
            r matches Ok(x) ==> range_indexed(*self, x, variable_names(variable_manager.variables@)),
            r matches Err(errs) ==> error_identifiers(errs@) == range_unknowns(
                *self,
                variable_names(variable_manager.variables@),
            ),
    {
        let ghost names = variable_names(variable_manager.variables@);
        match self {
            VariableRange::BoundedInt { min, max, span } => {
                let mut errors: Vec<UnknownVariableError<S>> = Vec::new();
                proof {
                    assert(error_identifiers(errors@) =~= Seq::<Identifier<S>>::empty());
                }
                let min2 = min.index_into(variable_manager, &mut errors);
                let max2 = max.index_into(variable_manager, &mut errors);
                proof {
                    assert(error_identifiers(errors@) =~= range_unknowns(*self, names));
                }
                if errors.len() > 0 {
                    Err(errors)
                } else {
                    Ok(VariableRange::BoundedInt { min: min2, max: max2, span: span.duplicate() })
                }
            },
            VariableRange::UnboundedInt { span } => Ok(VariableRange::UnboundedInt { span: span.duplicate() }),
            VariableRange::Boolean { span } => Ok(VariableRange::Boolean { span: span.duplicate() }),
            VariableRange::Float { span } => Ok(VariableRange::Float { span: span.duplicate() }),
        }
    }
}

} // verus!
