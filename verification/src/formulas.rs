use crate::expressions::{mapped, span_map_node, Expression};
use crate::identifier::{ident_span_mapped, Identifier};
use crate::names::{
    duplicate_error, first_duplicate_from, first_index_of, lemma_duplicate_error_distinct,
    lemma_first_index_of, lemma_first_index_of_spec, lemma_push_distinct, names_distinct,
};
use crate::spans::Span;
use vstd::prelude::*;

verus! {

/// The names of a list of formulas, in order.
pub open spec fn formula_names<S: Span, E>(items: Seq<Formula<S, E>>) -> Seq<Seq<char>> {
    items.map_values(|x: Formula<S, E>| x.name.name@)
}

/// The formulas of a model, with distinct names when added with [`FormulaManager::add_formula`].
#[derive(Debug)]
pub struct FormulaManager<S: Span, E> {
    /// The formulas, in the order in which they were added.
    pub formulas: Vec<Formula<S, E>>,
}

/// Error produced when adding a formula whose name is already taken.
#[derive(Debug, PartialEq, Eq, Structural)]
pub enum AddFormulaError {
    /// A formula with the same name exists at `index`.
    FormulaExists {
        /// The index of the existing formula.
        index: usize,
    },
}

impl<S: Span, E> FormulaManager<S, E> {
    /// Constructs an empty manager.
    pub fn new() -> (r: Self)
        ensures
            r.formulas@.len() == 0,
    {
        FormulaManager { formulas: Vec::new() }
    }

    /// Constructs a manager from a list of formulas, adding them in order.
    ///
    /// Fails at the first formula whose name is already taken, with the index of the earlier
    /// formula of that name.
    pub fn with_formulas(formulas: Vec<Formula<S, E>>) -> (r: Result<Self, AddFormulaError>)
        ensures
            r is Ok <==> names_distinct(formula_names(formulas@)),
            r matches Ok(m) ==> m.formulas@ == formulas@,
            r matches Err(AddFormulaError::FormulaExists { index }) ==> duplicate_error(formula_names(formulas@)) == Some(index),
    {
        let ghost names = formula_names(formulas@);
        let mut manager = Self::new();
        let mut rest = formulas;
        let ghost orig = rest@;
        assert(orig.skip(0) =~= orig);
        proof {
            lemma_duplicate_error_distinct(names, 0);
        }
        while rest.len() > 0
            invariant
                names == formula_names(orig),
                names == formula_names(formulas@),
                manager.formulas@.len() <= orig.len(),
                manager.formulas@ == orig.take(manager.formulas@.len() as int),
                rest@ == orig.skip(manager.formulas@.len() as int),
                first_duplicate_from(names, 0) == first_duplicate_from(names, manager.formulas@.len() as int),
                names_distinct(names.take(manager.formulas@.len() as int)),
                first_duplicate_from(names, 0) is None <==> names_distinct(names),
            decreases rest.len(),
        {
            let ghost k = manager.formulas@.len() as int;
            let x = rest.remove(0);
            let ghost x_name = x.name.name@;
            proof {
                assert(orig.skip(k).drop_first() =~= orig.skip(k + 1));
                assert(formula_names(manager.formulas@) =~= names.take(k));
                assert(x == orig[k]);
            }
            match manager.add_formula(x) {
                Ok(_) => {
                    proof {
                        assert(manager.formulas@ =~= orig.take(k + 1));
                        assert(names.take(k + 1) =~= names.take(k).push(names[k]));
                        lemma_first_index_of_spec(names.take(k), names[k]);
                        lemma_push_distinct(names.take(k), names[k]);
                    }
                },
                Err(e) => {
                    proof {
                        assert(names[k] == x_name);
                        assert(first_duplicate_from(names, k) == Some(k));
                    }
                    return Err(e);
                },
            }
        }
        proof {
            assert(orig.take(orig.len() as int) =~= orig);
            lemma_duplicate_error_distinct(names, orig.len() as int);
        }
        Ok(manager)
    }

    /// Adds a formula.
    ///
    /// If a formula with the same name exists, returns the index of the first such formula and
    /// leaves the manager unchanged. Otherwise appends the formula.
    pub fn add_formula(&mut self, item: Formula<S, E>) -> (r: Result<(), AddFormulaError>)
        ensures
            match first_index_of(formula_names(old(self).formulas@), item.name.name@) {
                Some(i) => r == Err::<(), AddFormulaError>(AddFormulaError::FormulaExists { index: i as usize })
                    && final(self).formulas@ == old(self).formulas@,
                None => r == Ok::<(), AddFormulaError>(()) && final(self).formulas@ == old(self).formulas@.push(item),
            },
    {
        let ghost names = formula_names(self.formulas@);
        let mut index: usize = 0;
        while index < self.formulas.len()
            invariant
                names == formula_names(self.formulas@),
                index <= self.formulas@.len(),
                forall|j: int| 0 <= j < index ==> names[j] != item.name.name@,
            decreases self.formulas.len() - index,
        {
            if self.formulas[index].name == item.name {
                proof {
                    lemma_first_index_of(names, item.name.name@, index as int);
                }
                return Err(AddFormulaError::FormulaExists { index });
            }
            index = index + 1;
        }
        proof {
            lemma_first_index_of(names, item.name.name@, index as int);
        }
        self.formulas.push(item);
        Ok(())
    }

    /// Returns the formula at `index`, or `None` if there is none.
    pub fn get(&self, index: usize) -> (r: Option<&Formula<S, E>>)
        ensures
            r == if index < self.formulas@.len() {
                Some(&self.formulas@[index as int])
            } else {
                None::<&Formula<S, E>>
            },
    {
        if index < self.formulas.len() {
            Some(&self.formulas[index])
        } else {
            None
        }
    }
}

impl<V, S: Span> FormulaManager<S, Expression<V, S>> {
    /// Maps every span of every entry with `map`.
    pub fn map_span<S2: Span, F: Fn(S) -> S2>(self, map: &F) -> (r: FormulaManager<S2, Expression<V, S2>>)
        requires
            forall|s: S| #[trigger] call_requires(*map, (s,)),
        ensures
            r.formulas@.len() == self.formulas@.len(),
            forall|i: int| 0 <= i < self.formulas@.len() ==> #[trigger] formula_span_mapped(self.formulas@[i], r.formulas@[i], *map),
    {
        let mut out: Vec<Formula<S2, Expression<V, S2>>> = Vec::new();
        let mut rest = self.formulas;
        let ghost orig = rest@;
        assert(orig.skip(0) =~= orig);
        while rest.len() > 0
            invariant
                forall|s: S| #[trigger] call_requires(*map, (s,)),
                out@.len() <= orig.len(),
                rest@ == orig.skip(out@.len() as int),
                forall|j: int| 0 <= j < out@.len() ==> #[trigger] formula_span_mapped(orig[j], out@[j], *map),
            decreases rest.len(),
        {
            let ghost k = out@.len() as int;
            proof {
                assert(orig.skip(k).drop_first() =~= orig.skip(k + 1));
            }
            let x = rest.remove(0);
            out.push(x.map_span(map));
        }
        FormulaManager { formulas: out }
    }
}

/// A formula: a named expression, `formula name = condition;`, that stands for its condition wherever its name occurs.
#[derive(Debug)]
pub struct Formula<S: Span, E> {
    /// The name of the formula.
    pub name: Identifier<S>,
    /// The expression that the formula stands for.
    pub condition: E,
    /// The span of the formula definition.
    pub span: S,
}

impl<S: Span, E> Formula<S, E> {
    /// Constructs a formula with an empty span.
    pub fn new(name: Identifier<S>, condition: E) -> (r: Self)
        ensures
            r.name == name,
            r.condition == condition,
            r.span.spec_range() is None,
    {
        Self::new_spanned(name, condition, S::empty())
    }

    /// Constructs a formula with the given span.
    pub fn new_spanned(name: Identifier<S>, condition: E, span: S) -> (r: Self)
        ensures
            r == (Formula { name, condition, span }),
    {
        Formula { name, condition, span }
    }
}

/// `b` is `a` with every span mapped by `f`.
pub open spec fn formula_span_mapped<V, S: Span, S2: Span, F: Fn(S) -> S2>(
    a: Formula<S, Expression<V, S>>,
    b: Formula<S2, Expression<V, S2>>,
    f: F,
) -> bool {
    &&& ident_span_mapped(a.name, b.name, f)
    &&& mapped(a.condition, b.condition, span_map_node::<V, S, S2, F>(f))
    &&& call_ensures(f, (a.span,), b.span)
}

impl<V, S: Span> Formula<S, Expression<V, S>> {
    /// Maps every span of this formula with `map`.
    pub fn map_span<S2: Span, F: Fn(S) -> S2>(self, map: &F) -> (r: Formula<S2, Expression<V, S2>>)
        requires
            forall|s: S| #[trigger] call_requires(*map, (s,)),
        ensures
            formula_span_mapped(self, r, *map),
    {
        Formula {
            name: self.name.map_span(map),
            condition: self.condition.map_span(map),
            span: map(self.span),
        }
    }
}

} // verus!
