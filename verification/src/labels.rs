use crate::expressions::{mapped, span_map_node, Expression};
use crate::identifier::{ident_span_mapped, Identifier};
use crate::names::{
    duplicate_error, first_duplicate_from, first_index_of, lemma_duplicate_error_distinct,
    lemma_first_index_of, lemma_first_index_of_spec, lemma_push_distinct, names_distinct,
};
use crate::spans::Span;
use vstd::prelude::*;

verus! {

/// The names of a list of labels, in order.
pub open spec fn label_names<S: Span, E>(items: Seq<Label<S, E>>) -> Seq<Seq<char>> {
    items.map_values(|x: Label<S, E>| x.name.name@)
}

/// The labels of a model, with distinct names when added with [`LabelManager::add_label`].
#[derive(Debug)]
pub struct LabelManager<S: Span, E> {
    /// The labels, in the order in which they were added.
    pub labels: Vec<Label<S, E>>,
}

/// Error produced when adding a label whose name is already taken.
#[derive(Debug, PartialEq, Eq, Structural)]
pub enum AddLabelError {
    /// A label with the same name exists at `index`.
    LabelExists {
        /// The index of the existing label.
        index: usize,
    },
}

impl<S: Span, E> LabelManager<S, E> {
    /// Constructs an empty manager.
    pub fn new() -> (r: Self)
        ensures
            r.labels@.len() == 0,
    {
        LabelManager { labels: Vec::new() }
    }

    /// Constructs a manager from a list of labels, adding them in order.
    ///
    /// Fails at the first label whose name is already taken, with the index of the earlier
    /// label of that name.
    pub fn with_labels(labels: Vec<Label<S, E>>) -> (r: Result<Self, AddLabelError>)
        ensures
            r is Ok <==> names_distinct(label_names(labels@)),
            r matches Ok(m) ==> m.labels@ == labels@,
            r matches Err(AddLabelError::LabelExists { index }) ==> duplicate_error(label_names(labels@)) == Some(index),
    {
        let ghost names = label_names(labels@);
        let mut manager = Self::new();
        let mut rest = labels;
        let ghost orig = rest@;
        assert(orig.skip(0) =~= orig);
        proof {
            lemma_duplicate_error_distinct(names, 0);
        }
        while rest.len() > 0
            invariant
                names == label_names(orig),
                names == label_names(labels@),
                manager.labels@.len() <= orig.len(),
                manager.labels@ == orig.take(manager.labels@.len() as int),
                rest@ == orig.skip(manager.labels@.len() as int),
                first_duplicate_from(names, 0) == first_duplicate_from(names, manager.labels@.len() as int),
                names_distinct(names.take(manager.labels@.len() as int)),
                first_duplicate_from(names, 0) is None <==> names_distinct(names),
            decreases rest.len(),
        {
            let ghost k = manager.labels@.len() as int;
            let x = rest.remove(0);
            let ghost x_name = x.name.name@;
            proof {
                assert(orig.skip(k).drop_first() =~= orig.skip(k + 1));
                assert(label_names(manager.labels@) =~= names.take(k));
                assert(x == orig[k]);
            }
            match manager.add_label(x) {
                Ok(_) => {
                    proof {
                        assert(manager.labels@ =~= orig.take(k + 1));
                        assert(names.take(k + 1) =~= names.take(k).push(names[k]));
                        lemma_first_index_of_spec(names.take(k), names[k]);
                        lemma_push_distinct(names.take(k), names[k]);
                    }
                },
                Err(e) => {
                    proof {
                        assert(names[k] == x_name);
                        assert(first_duplicate_from(names, k) == Some(k));
                    }
                    return Err(e);
                },
            }
        }
        proof {
            assert(orig.take(orig.len() as int) =~= orig);
            lemma_duplicate_error_distinct(names, orig.len() as int);
        }
        Ok(manager)
    }

    /// Adds a label.
    ///
    /// If a label with the same name exists, returns the index of the first such label and
    /// leaves the manager unchanged. Otherwise appends the label.
    pub fn add_label(&mut self, item: Label<S, E>) -> (r: Result<(), AddLabelError>)
        ensures
            match first_index_of(label_names(old(self).labels@), item.name.name@) {
                Some(i) => r == Err::<(), AddLabelError>(AddLabelError::LabelExists { index: i as usize })
                    && final(self).labels@ == old(self).labels@,
                None => r == Ok::<(), AddLabelError>(()) && final(self).labels@ == old(self).labels@.push(item),
            },
    {
        let ghost names = label_names(self.labels@);
        let mut index: usize = 0;
        while index < self.labels.len()
            invariant
                names == label_names(self.labels@),
                index <= self.labels@.len(),
                forall|j: int| 0 <= j < index ==> names[j] != item.name.name@,
            decreases self.labels.len() - index,
        {
            if self.labels[index].name == item.name {
                proof {
                    lemma_first_index_of(names, item.name.name@, index as int);
                }
                return Err(AddLabelError::LabelExists { index });
            }
            index = index + 1;
        }
        proof {
            lemma_first_index_of(names, item.name.name@, index as int);
        }
        self.labels.push(item);
        Ok(())
    }

    /// Returns the label at `index`, or `None` if there is none.
    pub fn get(&self, index: usize) -> (r: Option<&Label<S, E>>)
        ensures
            r == if index < self.labels@.len() {
                Some(&self.labels@[index as int])
            } else {
                None::<&Label<S, E>>
            },
    {
        if index < self.labels.len() {
            Some(&self.labels[index])
        } else {
            None
        }
    }

    /// Returns the index of the first label with the given name, or `None`.
    pub fn index_of_name(&self, name: &str) -> (r: Option<usize>)
        ensures
            r == match first_index_of(label_names(self.labels@), name@) {
                Some(i) => Some(i as usize),
                None => None::<usize>,
            },
    {
        let ghost names = label_names(self.labels@);
        let mut index: usize = 0;
        while index < self.labels.len()
            invariant
                names == label_names(self.labels@),
                index <= self.labels@.len(),
                forall|j: int| 0 <= j < index ==> names[j] != name@,
            decreases self.labels.len() - index,
        {
            if crate::identifier::str_equal(self.labels[index].name.name.as_str(), name) {
                proof {
                    lemma_first_index_of(names, name@, index as int);
                }
                return Some(index);
            }
            index = index + 1;
        }
        proof {
            lemma_first_index_of(names, name@, index as int);
        }
        None
    }

    /// Returns the first label with the given name, or `None`.
    pub fn by_name(&self, name: &str) -> (r: Option<&Label<S, E>>)
        ensures
            r == match first_index_of(label_names(self.labels@), name@) {
                Some(i) => Some(&self.labels@[i]),
                None => None::<&Label<S, E>>,
            },
    {
        proof {
            lemma_first_index_of_spec(label_names(self.labels@), name@);
        }
        match self.index_of_name(name) {
            Some(index) => {
                proof {
                    assert(self.labels@.len() == self.labels.len());
                }
                self.get(index)
            },
            None => None,
        }
    }
}

impl<V, S: Span> LabelManager<S, Expression<V, S>> {
    /// Maps every span of every entry with `map`.
    pub fn map_span<S2: Span, F: Fn(S) -> S2>(self, map: &F) -> (r: LabelManager<S2, Expression<V, S2>>)
        requires
            forall|s: S| #[trigger] call_requires(*map, (s,)),
        ensures
            r.labels@.len() == self.labels@.len(),
            forall|i: int| 0 <= i < self.labels@.len() ==> #[trigger] label_span_mapped(self.labels@[i], r.labels@[i], *map),
    {
        let mut out: Vec<Label<S2, Expression<V, S2>>> = Vec::new();
        let mut rest = self.labels;
        let ghost orig = rest@;
        assert(orig.skip(0) =~= orig);
        while rest.len() > 0
            invariant
                forall|s: S| #[trigger] call_requires(*map, (s,)),
                out@.len() <= orig.len(),
                rest@ == orig.skip(out@.len() as int),
                forall|j: int| 0 <= j < out@.len() ==> #[trigger] label_span_mapped(orig[j], out@[j], *map),
            decreases rest.len(),
        {
            let ghost k = out@.len() as int;
            proof {
                assert(orig.skip(k).drop_first() =~= orig.skip(k + 1));
            }
            let x = rest.remove(0);
            out.push(x.map_span(map));
        }
        LabelManager { labels: out }
    }
}

/// A label: a named state condition, `label "name" = condition;`.
#[derive(Debug)]
pub struct Label<S: Span, E> {
    /// The name of the label.
    pub name: Identifier<S>,
    /// The condition of the label.
    pub condition: E,
    /// The span of the label definition.
    pub span: S,
}

impl<S: Span, E> Label<S, E> {
    /// Constructs a label with an empty span.
    pub fn new(name: Identifier<S>, condition: E) -> (r: Self)
        ensures
            r.name == name,
            r.condition == condition,
            r.span.spec_range() is None,
    {
        Self::new_spanned(name, condition, S::empty())
    }

    /// Constructs a label with the given span.
    pub fn new_spanned(name: Identifier<S>, condition: E, span: S) -> (r: Self)
        ensures
            r == (Label { name, condition, span }),
    {
        Label { name, condition, span }
    }
}

/// `b` is `a` with every span mapped by `f`.
pub open spec fn label_span_mapped<V, S: Span, S2: Span, F: Fn(S) -> S2>(
    a: Label<S, Expression<V, S>>,
    b: Label<S2, Expression<V, S2>>,
    f: F,
) -> bool {
    &&& ident_span_mapped(a.name, b.name, f)
    &&& mapped(a.condition, b.condition, span_map_node::<V, S, S2, F>(f))
    &&& call_ensures(f, (a.span,), b.span)
}

impl<V, S: Span> Label<S, Expression<V, S>> {
    /// Maps every span of this label with `map`.
    pub fn map_span<S2: Span, F: Fn(S) -> S2>(self, map: &F) -> (r: Label<S2, Expression<V, S2>>)
        requires
            forall|s: S| #[trigger] call_requires(*map, (s,)),
        ensures
            label_span_mapped(self, r, *map),
    {
        Label {
            name: self.name.map_span(map),
            condition: self.condition.map_span(map),
            span: map(self.span),
        }
    }
}

} // verus!
