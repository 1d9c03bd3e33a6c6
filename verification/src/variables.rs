use crate::expressions::{copied, mapped, rename_node, span_map_node, Duplicate, Expression};
use crate::identifier::Identifier;
use crate::module::{spec_get_renaming, RenameRule, RenameRules};
use crate::names::{duplicate_error, first_duplicate_from, first_index_of, lemma_duplicate_error_distinct, lemma_first_index_of, lemma_first_index_of_spec, lemma_push_distinct, names_distinct};
use crate::spans::Span;
use vstd::prelude::*;

verus! {

/// A reference to a variable: the index of its [`VariableInfo`] in a [`VariableManager`].
#[derive(PartialEq, Eq, Structural, Clone, Copy, Debug)]
pub struct VariableReference {
    /// The index of the variable in [`VariableManager::variables`].
    pub index: usize,
}

impl VariableReference {
    /// Constructs a variable reference with the given index.
    pub fn new(index: usize) -> (r: Self)
        ensures
            r.index == index,
    {
        VariableReference { index }
    }
}

impl Duplicate for VariableReference {
    fn duplicate(&self) -> (r: Self) {
        *self
    }
}

/// The names of a list of variables, in order.
pub open spec fn variable_names<S: Span, E>(vars: Seq<VariableInfo<S, E>>) -> Seq<Seq<char>> {
    vars.map_values(|v: VariableInfo<S, E>| v.name.name@)
}

/// A collection of constants and variables, global and local.
///
/// Variables should only be added with [`VariableManager::add_variable`], which keeps the names
/// distinct.
#[derive(Debug)]
pub struct VariableManager<S: Span, E> {
    /// The variables managed by this variable manager.
    pub variables: Vec<VariableInfo<S, E>>,
}

impl<S: Span, E> VariableManager<S, E> {
    /// Constructs an empty variable manager.
    pub fn new() -> (r: Self)
        ensures
            r.variables@ == Seq::<VariableInfo<S, E>>::empty(),
    {
        VariableManager { variables: Vec::new() }
    }

    /// Constructs a variable manager from a list of variables, adding them in order.
    ///
    /// Fails with [`VariableAddError::VariableExists`] at the first variable whose name is already
    /// taken; the reference is that of the earlier variable.
    pub fn with_variables(variables: Vec<VariableInfo<S, E>>) -> (r: Result<Self, VariableAddError>)
        ensures
            r is Ok <==> names_distinct(variable_names(variables@)),
            r matches Ok(m) ==> m.variables@ == variables@,
            r matches Err(VariableAddError::VariableExists { reference }) ==> duplicate_error(
                variable_names(variables@),
            ) == Some(reference.index),
    {
        let ghost names = variable_names(variables@);
        let mut manager = Self::new();
        let mut rest = variables;
        let ghost orig = rest@;
        assert(orig.skip(0) =~= orig);
        proof {
            lemma_duplicate_error_distinct(names, 0);
        }
        while rest.len() > 0
            invariant
                names == variable_names(orig),
                names == variable_names(variables@),
                manager.variables@.len() <= orig.len(),
                manager.variables@ == orig.take(manager.variables@.len() as int),
                rest@ == orig.skip(manager.variables@.len() as int),
                first_duplicate_from(names, 0) == first_duplicate_from(
                    names,
                    manager.variables@.len() as int,
                ),
                names_distinct(names.take(manager.variables@.len() as int)),
                first_duplicate_from(names, 0) is None <==> names_distinct(names),
            decreases rest.len(),
        {
            let ghost k = manager.variables@.len() as int;
            let v = rest.remove(0);
            let ghost v_name = v.name.name@;
            proof {
                assert(orig.skip(k).drop_first() =~= orig.skip(k + 1));
                assert(variable_names(manager.variables@) =~= names.take(k));
                assert(v == orig[k]);
            }
            match manager.add_variable(v) {
                Ok(_) => {
                    proof {
                        assert(manager.variables@ =~= orig.take(k + 1));
                        assert(names.take(k + 1) =~= names.take(k).push(names[k]));
                        lemma_first_index_of_spec(names.take(k), names[k]);
                        lemma_push_distinct(names.take(k), names[k]);
                    }
                },
                Err(e) => {
                    proof {
                        assert(names[k] == v_name);
                        assert(first_duplicate_from(names, k) == Some(k));
                    }
                    return Err(e);
                },
            }
        }
        proof {
            assert(orig.take(orig.len() as int) =~= orig);
            lemma_duplicate_error_distinct(names, orig.len() as int);
        }
        Ok(manager)
    }

    /// Adds a variable.
    ///
    /// If a variable with the same name exists (in any scope), returns
    /// [`VariableAddError::VariableExists`] with the reference of the first such variable and
    /// leaves the manager unchanged. Otherwise appends the variable and returns its reference.
    pub fn add_variable(&mut self, variable_info: VariableInfo<S, E>) -> (r: Result<
        VariableReference,
        VariableAddError,
    >)
        ensures
            match first_index_of(variable_names(old(self).variables@), variable_info.name.name@) {
                Some(i) => r == Err::<VariableReference, VariableAddError>(
                    VariableAddError::VariableExists { reference: VariableReference { index: i as usize } },
                ) && final(self).variables@ == old(self).variables@,
                None => r == Ok::<VariableReference, VariableAddError>(
                    VariableReference { index: old(self).variables@.len() as usize },
                ) && final(self).variables@ == old(self).variables@.push(variable_info),
            },
    {
        if let Some(existing_variable) = self.get_reference(&variable_info.name) {
            Err(VariableAddError::VariableExists { reference: existing_variable })
        } else {
            let index = VariableReference::new(self.variables.len());
            self.variables.push(variable_info);
            Ok(index)
        }
    }

    /// Returns a reference to the first variable named like `name` (spans are not compared), or
    /// `None` if there is none.
    pub fn get_reference(&self, name: &Identifier<S>) -> (r: Option<VariableReference>)
        ensures
            r == match first_index_of(variable_names(self.variables@), name.name@) {
                Some(i) => Some(VariableReference { index: i as usize }),
                None => None::<VariableReference>,
            },
    {
        self.get_reference_by_str(name.name.as_str())
    }

    /// Returns a reference to the first variable with the given name, or `None` if there is none.
    pub fn get_reference_by_str(&self, name: &str) -> (r: Option<VariableReference>)
        ensures
            r == match first_index_of(variable_names(self.variables@), name@) {
                Some(i) => Some(VariableReference { index: i as usize }),
                None => None::<VariableReference>,
            },
    {
        let ghost names = variable_names(self.variables@);
        let mut index: usize = 0;
        while index < self.variables.len()
            invariant
                names == variable_names(self.variables@),
                index <= self.variables@.len(),
                forall|j: int| 0 <= j < index ==> names[j] != name@,
            decreases self.variables.len() - index,
        {
            if crate::identifier::str_equal(self.variables[index].name.name.as_str(), name) {
                proof {
                    lemma_first_index_of(names, name@, index as int);
                }
                return Some(VariableReference::new(index));
            }
            index = index + 1;
        }
        proof {
            lemma_first_index_of(names, name@, index as int);
        }
        None
    }

    /// Returns the variable with the given reference, or `None` if the index is out of bounds.
    pub fn get(&self, reference: &VariableReference) -> (r: Option<&VariableInfo<S, E>>)
        ensures
            r == if reference.index < self.variables@.len() {
                Some(&self.variables@[reference.index as int])
            } else {
                None::<&VariableInfo<S, E>>
            },
    {
        if reference.index < self.variables.len() {
            Some(&self.variables[reference.index])
        } else {
            None
        }
    }

    /// Returns the first variable named like `name`, or `None`.
    pub fn get_by_name(&self, name: &Identifier<S>) -> (r: Option<&VariableInfo<S, E>>)
        ensures
            r == match first_index_of(variable_names(self.variables@), name.name@) {
                Some(i) => Some(&self.variables@[i]),
                None => None::<&VariableInfo<S, E>>,
            },
    {
        proof {
            lemma_first_index_of_spec(variable_names(self.variables@), name.name@);
        }
        match self.get_reference(name) {
            Some(reference) => {
                proof {
                    let names = variable_names(self.variables@);
                    assert(names.len() == self.variables@.len());
                    let i = first_index_of(names, name.name@)->0;
                    assert(0 <= i < names.len());
                    assert(self.variables@.len() == self.variables.len());
                    assert(reference.index as int == i);
                }
                let r = self.get(&reference);
                assert(r == Some(&self.variables@[reference.index as int]));
                r
            },
            None => None,
        }
    }

    /// Returns the first variable with the given name, or `None`.
    pub fn get_by_str(&self, name: &str) -> (r: Option<&VariableInfo<S, E>>)
        ensures
            r == match first_index_of(variable_names(self.variables@), name@) {
                Some(i) => Some(&self.variables@[i]),
                None => None::<&VariableInfo<S, E>>,
            },
    {
        proof {
            lemma_first_index_of_spec(variable_names(self.variables@), name@);
        }
        match self.get_reference_by_str(name) {
            Some(reference) => {
                proof {
                    let names = variable_names(self.variables@);
                    assert(names.len() == self.variables@.len());
                    let i = first_index_of(names, name@)->0;
                    assert(0 <= i < names.len());
                    assert(self.variables@.len() == self.variables.len());
                    assert(reference.index as int == i);
                }
                let r = self.get(&reference);
                assert(r == Some(&self.variables@[reference.index as int]));
                r
            },
            None => None,
        }
    }
}

/// An error produced while adding a variable or constant to a [`VariableManager`].
#[derive(Debug, PartialEq, Eq, Structural)]
pub enum VariableAddError {
    /// A variable or constant with the same name already exists (in any scope).
    VariableExists {
        /// Reference to the existing variable with the same name.
        reference: VariableReference,
    },
}

/// An error produced by [`VariableManager::add_renamed`]: a variable of the copied scope has no
/// renaming rule.
#[derive(Debug)]
pub struct MissingVariableRenaming<S: Span> {
    /// The name of the variable that has no renaming rule.
    pub variable_name: Identifier<S>,
    /// The span of the whole definition of the original variable.
    pub original_definition_span: S,
}

/// Information about a variable or constant, corresponding to a PRISM declaration.
#[derive(Debug)]
pub struct VariableInfo<S: Span, E> {
    /// `true` for a constant, `false` for a (global or local) variable.
    pub is_constant: bool,
    /// `None` for a global variable or constant, `Some(idx)` for a variable of the module with
    /// index `idx`.
    pub scope: Option<usize>,
    /// The domain of the variable.
    pub range: VariableRange<S, E>,
    /// The name of the variable.
    pub name: Identifier<S>,
    /// The explicit initial value, if any.
    pub initial_value: Option<E>,
    /// The span of the declaration.
    pub span: S,
}

impl<S: Span, E> VariableInfo<S, E> {
    /// A global variable with empty span and no initial value.
    pub fn global_var(name: Identifier<S>, range: VariableRange<S, E>) -> (r: Self)
        ensures
            r.name == name && r.range == range && !r.is_constant && r.scope is None
                && r.initial_value is None && r.span.spec_range() is None,
    {
        Self::global_var_spanned(name, range, S::empty())
    }

    /// A global variable with the given span and no initial value.
    pub fn global_var_spanned(name: Identifier<S>, range: VariableRange<S, E>, span: S) -> (r: Self)
        ensures
            r == (VariableInfo { is_constant: false, scope: None, range, name, initial_value: None, span }),
    {
        Self::new_spanned(name, range, false, None, span)
    }

    /// A global constant with empty span and no initial value.
    pub fn global_const(name: Identifier<S>, range: VariableRange<S, E>) -> (r: Self)
        ensures
            r.name == name && r.range == range && r.is_constant && r.scope is None
                && r.initial_value is None && r.span.spec_range() is None,
    {
        Self::global_const_spanned(name, range, S::empty())
    }

    /// A global constant with the given span and no initial value.
    pub fn global_const_spanned(name: Identifier<S>, range: VariableRange<S, E>, span: S) -> (r: Self)
        ensures
            r == (VariableInfo { is_constant: true, scope: None, range, name, initial_value: None, span }),
    {
        Self::new_spanned(name, range, true, None, span)
    }

    /// A local variable of module `module`, with empty span and no initial value.
    pub fn local_var(name: Identifier<S>, range: VariableRange<S, E>, module: usize) -> (r: Self)
        ensures
            r.name == name && r.range == range && !r.is_constant && r.scope == Some(module)
                && r.initial_value is None && r.span.spec_range() is None,
    {
        Self::local_var_spanned(name, range, module, S::empty())
    }

    /// A local variable of module `module`, with the given span and no initial value.
    pub fn local_var_spanned(name: Identifier<S>, range: VariableRange<S, E>, module: usize, span: S) -> (r: Self)
        ensures
            r == (VariableInfo {
                is_constant: false,
                scope: Some(module),
                range,
                name,
                initial_value: None,
                span,
            }),
    {
        Self::new_spanned(name, range, false, Some(module), span)
    }

    /// A variable with the given properties, empty span and no initial value.
    pub fn new(name: Identifier<S>, range: VariableRange<S, E>, is_constant: bool, scope: Option<usize>) -> (r: Self)
        ensures
            r.name == name && r.range == range && r.is_constant == is_constant && r.scope == scope
                && r.initial_value is None && r.span.spec_range() is None,
    {
        Self::new_spanned(name, range, is_constant, scope, S::empty())
    }

    /// A variable with the given properties and span and no initial value.
    pub fn new_spanned(
        name: Identifier<S>,
        range: VariableRange<S, E>,
        is_constant: bool,
        scope: Option<usize>,
        span: S,
    ) -> (r: Self)
        ensures
            r == (VariableInfo { is_constant, scope, range, name, initial_value: None, span }),
    {
        VariableInfo { name, range, initial_value: None, span, is_constant, scope }
    }

    /// A variable with the given properties and initial value and empty span.
    pub fn with_initial_value(
        name: Identifier<S>,
        range: VariableRange<S, E>,
        is_constant: bool,
        scope: Option<usize>,
        initial_value: E,
    ) -> (r: Self)
        ensures
            r.name == name && r.range == range && r.is_constant == is_constant && r.scope == scope
                && r.initial_value == Some(initial_value) && r.span.spec_range() is None,
    {
        Self::with_initial_value_spanned(name, range, is_constant, scope, initial_value, S::empty())
    }

    /// A variable with the given properties, initial value and span.
    pub fn with_initial_value_spanned(
        name: Identifier<S>,
        range: VariableRange<S, E>,
        is_constant: bool,
        scope: Option<usize>,
        initial_value: E,
        span: S,
    ) -> (r: Self)
        ensures
            r == (VariableInfo {
                is_constant,
                scope,
                range,
                name,
                initial_value: Some(initial_value),
                span,
            }),
    {
        VariableInfo { name, range, initial_value: Some(initial_value), span, is_constant, scope }
    }

    /// A variable with the given properties, optional initial value and span.
    pub fn with_optional_initial_value(
        name: Identifier<S>,
        range: VariableRange<S, E>,
        is_constant: bool,
        scope: Option<usize>,
        initial_value: Option<E>,
        span: S,
    ) -> (r: Self)
        ensures
            r == (VariableInfo { is_constant, scope, range, name, initial_value, span }),
    {
        VariableInfo { name, range, initial_value, span, is_constant, scope }
    }

    /// Sets the initial value of the variable.
    pub fn initial_value(self, initial_value: E) -> (r: Self)
        ensures
            r == (VariableInfo { initial_value: Some(initial_value), ..self }),
    {
        let mut s = self;
        s.initial_value = Some(initial_value);
        s
    }
}

/// `w` is `v` with every span mapped by `f`.
pub open spec fn info_span_mapped<V, S: Span, S2: Span, F: Fn(S) -> S2>(
    v: VariableInfo<S, Expression<V, S>>,
    w: VariableInfo<S2, Expression<V, S2>>,
    f: F,
) -> bool {
    &&& w.is_constant == v.is_constant
    &&& w.scope == v.scope
    &&& range_span_mapped(v.range, w.range, f)
    &&& w.name.name == v.name.name
    &&& call_ensures(f, (v.name.span,), w.name.span)
    &&& (v.initial_value is None <==> w.initial_value is None)
    &&& (v.initial_value matches Some(i) ==> mapped(
        i,
        w.initial_value->0,
        span_map_node::<V, S, S2, F>(f),
    ))
    &&& call_ensures(f, (v.span,), w.span)
}

/// `b` is `a` with every span mapped by `f`, element by element.
pub open spec fn infos_span_mapped<V, S: Span, S2: Span, F: Fn(S) -> S2>(
    a: Seq<VariableInfo<S, Expression<V, S>>>,
    b: Seq<VariableInfo<S2, Expression<V, S2>>>,
    f: F,
) -> bool {
    a.len() == b.len() && forall|i: int| 0 <= i < a.len() ==> #[trigger] info_span_mapped(a[i], b[i], f)
}

impl<V, S: Span> VariableInfo<S, Expression<V, S>> {
    /// Maps every span of this variable (range, name, initial value, declaration) with `map`.
    pub fn map_span<S2: Span, F: Fn(S) -> S2>(self, map: &F) -> (r: VariableInfo<
        S2,
        Expression<V, S2>,
    >)
        requires
            forall|s: S| #[trigger] call_requires(*map, (s,)),
        ensures
            info_span_mapped(self, r, *map),
    {
        let initial_value = match self.initial_value {
            Some(i) => Some(i.map_span(map)),
            None => None,
        };
        VariableInfo {
            is_constant: self.is_constant,
            scope: self.scope,
            range: self.range.map_span(map),
            name: self.name.map_span(map),
            initial_value,
            span: map(self.span),
        }
    }
}

impl<V, S: Span> VariableManager<S, Expression<V, S>> {
    /// Maps the spans of every variable with `map`.
    pub fn map_span<S2: Span, F: Fn(S) -> S2>(self, map: &F) -> (r: VariableManager<
        S2,
        Expression<V, S2>,
    >)
        requires
            forall|s: S| #[trigger] call_requires(*map, (s,)),
        ensures
            infos_span_mapped(self.variables@, r.variables@, *map),
    {
        let mut rest = self.variables;
        let ghost orig = rest@;
        let mut out: Vec<VariableInfo<S2, Expression<V, S2>>> = Vec::new();
        assert(orig.skip(0) =~= orig);
        while rest.len() > 0
            invariant
                forall|s: S| #[trigger] call_requires(*map, (s,)),
                out@.len() <= orig.len(),
                rest@ == orig.skip(out@.len() as int),
                forall|j: int| 0 <= j < out@.len() ==> #[trigger] info_span_mapped(orig[j], out@[j], *map),
            decreases rest.len(),
        {
            let ghost k = out@.len() as int;
            proof {
                assert(orig.skip(k).drop_first() =~= orig.skip(k + 1));
            }
            let v = rest.remove(0);
            out.push(v.map_span(map));
        }
        VariableManager { variables: out }
    }
}

/// A variable of scope `module`: not a constant, and local to that module.
pub open spec fn in_scope<S: Span, E>(v: VariableInfo<S, E>, module: usize) -> bool {
    !v.is_constant && v.scope == Some(module)
}

/// `w` is the copy of `v` for the renamed module `new_module`: renamed name, renamed range and
/// initial value, same span, a variable of scope `new_module`.
pub open spec fn variable_renamed<S: Span>(
    v: VariableInfo<S, Expression<Identifier<S>, S>>,
    w: VariableInfo<S, Expression<Identifier<S>, S>>,
    rules: Seq<RenameRule<S>>,
    new_module: usize,
) -> bool {
    &&& spec_get_renaming(rules, v.name) == Some(w.name)
    &&& range_renamed(v.range, w.range, rules)
    &&& (v.initial_value is None <==> w.initial_value is None)
    &&& (v.initial_value matches Some(i) ==> mapped(i, w.initial_value->0, rename_node(rules)))
    &&& w.span == v.span
    &&& !w.is_constant
    &&& w.scope == Some(new_module)
}

/// `added` holds, in order, the renamed copies of the variables of scope `old_module` among the
/// first `upto` entries of `vars`.
pub open spec fn renamed_copies<S: Span>(
    vars: Seq<VariableInfo<S, Expression<Identifier<S>, S>>>,
    added: Seq<VariableInfo<S, Expression<Identifier<S>, S>>>,
    upto: int,
    old_module: usize,
    new_module: usize,
    rules: Seq<RenameRule<S>>,
) -> bool
    decreases upto,
{
    if upto <= 0 {
        added.len() == 0
    } else if in_scope(vars[upto - 1], old_module) {
        &&& added.len() > 0
        &&& variable_renamed(vars[upto - 1], added.last(), rules, new_module)
        &&& renamed_copies(vars, added.drop_last(), upto - 1, old_module, new_module, rules)
    } else {
        renamed_copies(vars, added, upto - 1, old_module, new_module, rules)
    }
}

/// The first variable of scope `old_module` (from position `from` on) that no rule renames.
pub open spec fn first_unrenamed_from<S: Span, E>(
    vars: Seq<VariableInfo<S, E>>,
    old_module: usize,
    rules: Seq<RenameRule<S>>,
    from: int,
) -> Option<int>
    decreases vars.len() - from,
{
    if from < 0 || from >= vars.len() {
        None
    } else if in_scope(vars[from], old_module) && spec_get_renaming(rules, vars[from].name) is None {
        Some(from)
    } else {
        first_unrenamed_from(vars, old_module, rules, from + 1)
    }
}

impl<S: Span> VariableManager<S, Expression<Identifier<S>, S>> {
    /// Copies the variables of scope `old_module_index` to scope `new_module_index`, renaming
    /// their names, ranges and initial values with `rename_rules`, and appends the copies to this
    /// manager in order.
    ///
    /// If a variable of the old scope has no renaming rule, the copying stops there and
    /// [`MissingVariableRenaming`] is returned for that variable; the copies made before it stay.
    /// On success, the returned manager is empty.
    pub fn add_renamed(
        &mut self,
        old_module_index: usize,
        new_module_index: usize,
        rename_rules: &RenameRules<S>,
    ) -> (r: Result<VariableManager<S, Expression<Identifier<S>, S>>, MissingVariableRenaming<S>>)
        ensures
            ({
                let old_vars = old(self).variables@;
                let n = old_vars.len();
                let rules = rename_rules.rules@;
                &&& final(self).variables@.take(n as int) == old_vars
                &&& final(self).variables@.len() >= n
                &&& match first_unrenamed_from(old_vars, old_module_index, rules, 0) {
                    None => r matches Ok(m) && m.variables@.len() == 0 && renamed_copies(
                        old_vars,
                        final(self).variables@.skip(n as int),
                        n as int,
                        old_module_index,
                        new_module_index,
                        rules,
                    ),
                    Some(f) => r matches Err(e) && e.variable_name == old_vars[f].name
                        && e.original_definition_span == old_vars[f].span && renamed_copies(
                        old_vars,
                        final(self).variables@.skip(n as int),
                        f,
                        old_module_index,
                        new_module_index,
                        rules,
                    ),
                }
            }),
    {
        let n = self.variables.len();
        let ghost old_vars = self.variables@;
        let ghost rules = rename_rules.rules@;
        let mut added: Vec<VariableInfo<S, Expression<Identifier<S>, S>>> = Vec::new();
        let mut missing: Option<MissingVariableRenaming<S>> = None;
        let mut i: usize = 0;
        while i < n
            invariant_except_break
                missing is None,
            invariant
                n == old_vars.len(),
                self.variables@ == old_vars,
                rules == rename_rules.rules@,
                i <= n,
                renamed_copies(old_vars, added@, i as int, old_module_index, new_module_index, rules),
                first_unrenamed_from(old_vars, old_module_index, rules, 0) == first_unrenamed_from(
                    old_vars,
                    old_module_index,
                    rules,
                    i as int,
                ),
            ensures
                renamed_copies(old_vars, added@, i as int, old_module_index, new_module_index, rules),
                missing is None ==> i == n && first_unrenamed_from(old_vars, old_module_index, rules, 0)
                    is None,
                missing matches Some(e) ==> i < n && first_unrenamed_from(
                    old_vars,
                    old_module_index,
                    rules,
                    0,
                ) == Some(i as int) && e.variable_name == old_vars[i as int].name
                    && e.original_definition_span == old_vars[i as int].span,
            decreases n - i,
        {
            let variable = &self.variables[i];
            if variable.is_constant || variable.scope != Some(old_module_index) {
                i = i + 1;
                continue;
            }
            match rename_rules.get_renaming(&variable.name) {
                None => {
                    missing = Some(
                        MissingVariableRenaming {
                            variable_name: variable.name.duplicate(),
                            original_definition_span: variable.span.duplicate(),
                        },
                    );
                    break;
                },
                Some(renaming) => {
                    let initial_value = match &variable.initial_value {
                        Some(v) => Some(v.renamed(rename_rules)),
                        None => None,
                    };
                    let new_var = VariableInfo {
                        range: variable.range.renamed(rename_rules),
                        name: renaming,
                        initial_value,
                        span: variable.span.duplicate(),
                        is_constant: false,
                        scope: Some(new_module_index),
                    };
                    let ghost before = added@;
                    added.push(new_var);
                    proof {
                        assert(added@.drop_last() =~= before);
                    }
                },
            }
            i = i + 1;
        }
        let ghost copies = added@;
        self.variables.append(&mut added);
        proof {
            assert(self.variables@.take(n as int) =~= old_vars);
            assert(self.variables@.skip(n as int) =~= copies);
        }
        match missing {
            Some(error) => Err(error),
            None => Ok(VariableManager::new()),
        }
    }
}

/// The domain of a variable: bounded integer, unbounded integer, boolean or floating-point.
#[derive(Debug)]
pub enum VariableRange<S: Span, E> {
    /// A bounded integer `[min..max]`, both bounds inclusive.
    BoundedInt {
        /// The minimal value.
        min: E,
        /// The maximal value.
        max: E,
        /// The span of the bounded integer type.
        span: S,
    },
    /// An unbounded integer.
    UnboundedInt {
        /// The span of the type.
        span: S,
    },
    /// A boolean.
    Boolean {
        /// The span of the type.
        span: S,
    },
    /// A floating-point number.
    Float {
        /// The span of the type.
        span: S,
    },
}

/// The span stored in a variable range.
pub open spec fn range_span<S: Span, E>(r: VariableRange<S, E>) -> S {
    match r {
        VariableRange::BoundedInt { span, .. } => span,
        VariableRange::UnboundedInt { span } => span,
        VariableRange::Boolean { span } => span,
        VariableRange::Float { span } => span,
    }
}

/// The variant of a variable range, as a number in declaration order.
pub open spec fn range_kind<S: Span, E>(r: VariableRange<S, E>) -> int {
    match r {
        VariableRange::BoundedInt { .. } => 0,
        VariableRange::UnboundedInt { .. } => 1,
        VariableRange::Boolean { .. } => 2,
        VariableRange::Float { .. } => 3,
    }
}

impl<S: Span, E> VariableRange<S, E> {
    /// A bounded integer type with empty span.
    pub fn bounded_int(min: E, max: E) -> (r: Self)
        ensures
            r matches VariableRange::BoundedInt { min: a, max: b, span } && a == min && b == max
                && span.spec_range() is None,
    {
        Self::bounded_int_spanned(min, max, S::empty())
    }

    /// A bounded integer type with the given span.
    pub fn bounded_int_spanned(min: E, max: E, span: S) -> (r: Self)
        ensures
            r == (VariableRange::BoundedInt { min, max, span }),
    {
        VariableRange::BoundedInt { min, max, span }
    }

    /// An unbounded integer type with empty span.
    pub fn unbounded_int() -> (r: Self)
        ensures
            r matches VariableRange::UnboundedInt { span } && span.spec_range() is None,
    {
        Self::unbounded_int_spanned(S::empty())
    }

    /// An unbounded integer type with the given span.
    pub fn unbounded_int_spanned(span: S) -> (r: Self)
        ensures
            r == (VariableRange::<S, E>::UnboundedInt { span }),
    {
        VariableRange::UnboundedInt { span }
    }

    /// A boolean type with empty span.
    pub fn bool() -> (r: Self)
        ensures
            r matches VariableRange::Boolean { span } && span.spec_range() is None,
    {
        Self::bool_spanned(S::empty())
    }

    /// A boolean type with the given span.
    pub fn bool_spanned(span: S) -> (r: Self)
        ensures
            r == (VariableRange::<S, E>::Boolean { span }),
    {
        VariableRange::Boolean { span }
    }

    /// A floating-point type with empty span.
    pub fn float() -> (r: Self)
        ensures
            r matches VariableRange::Float { span } && span.spec_range() is None,
    {
        Self::float_spanned(S::empty())
    }

    /// A floating-point type with the given span.
    pub fn float_spanned(span: S) -> (r: Self)
        ensures
            r == (VariableRange::<S, E>::Float { span }),
    {
        VariableRange::Float { span }
    }

    /// Returns `true` if the type is legal for constants: every type but bounded integers.
    pub fn is_legal_for_constant(&self) -> (r: bool)
        ensures
            r == !(*self is BoundedInt),
    {
        match self {
            VariableRange::BoundedInt { .. } => false,
            VariableRange::UnboundedInt { .. } => true,
            VariableRange::Boolean { .. } => true,
            VariableRange::Float { .. } => true,
        }
    }

    /// Returns `true` if the type is legal for variables: every type but floats.
    pub fn is_legal_for_variable(&self) -> (r: bool)
        ensures
            r == !(*self is Float),
    {
        match self {
            VariableRange::BoundedInt { .. } => true,
            VariableRange::UnboundedInt { .. } => true,
            VariableRange::Boolean { .. } => true,
            VariableRange::Float { .. } => false,
        }
    }

    /// A description of the variant: `bounded int`, `int`, `bool` or `float`.
    pub fn name(&self) -> (r: &'static str)
        ensures
            r@ == match *self {
                VariableRange::BoundedInt { .. } => "bounded int"@,
                VariableRange::UnboundedInt { .. } => "int"@,
                VariableRange::Boolean { .. } => "bool"@,
                VariableRange::Float { .. } => "float"@,
            },
    {
        match self {
            VariableRange::BoundedInt { .. } => "bounded int",
            VariableRange::UnboundedInt { .. } => "int",
            VariableRange::Boolean { .. } => "bool",
            VariableRange::Float { .. } => "float",
        }
    }

    /// Returns the span of the variable range.
    pub fn span(&self) -> (r: &S)
        ensures
            *r == range_span(*self),
    {
        match self {
            VariableRange::BoundedInt { span, .. } => span,
            VariableRange::UnboundedInt { span } => span,
            VariableRange::Boolean { span } => span,
            VariableRange::Float { span } => span,
        }
    }
}

/// `b` is `a` with every span mapped by `f`.
pub open spec fn range_span_mapped<V, S: Span, S2: Span, F: Fn(S) -> S2>(
    a: VariableRange<S, Expression<V, S>>,
    b: VariableRange<S2, Expression<V, S2>>,
    f: F,
) -> bool {
    &&& range_kind(b) == range_kind(a)
    &&& call_ensures(f, (range_span(a),), range_span(b))
    &&& (a matches VariableRange::BoundedInt { min, max, .. } ==> mapped(
        min,
        b->min,
        span_map_node::<V, S, S2, F>(f),
    ) && mapped(max, b->max, span_map_node::<V, S, S2, F>(f)))
}

/// `b` is `a` with the bounds renamed by `rules`.
pub open spec fn range_renamed<S: Span>(
    a: VariableRange<S, Expression<Identifier<S>, S>>,
    b: VariableRange<S, Expression<Identifier<S>, S>>,
    rules: Seq<RenameRule<S>>,
) -> bool {
    &&& range_kind(b) == range_kind(a)
    &&& range_span(b) == range_span(a)
    &&& (a matches VariableRange::BoundedInt { min, max, .. } ==> mapped(
        min,
        b->min,
        rename_node(rules),
    ) && mapped(max, b->max, rename_node(rules)))
}

impl<V, S: Span> VariableRange<S, Expression<V, S>> {
    /// Maps every span of this range (and of the bounds) with `map`.
    pub fn map_span<S2: Span, F: Fn(S) -> S2>(self, map: &F) -> (r: VariableRange<
        S2,
        Expression<V, S2>,
    >)
        requires
            forall|s: S| #[trigger] call_requires(*map, (s,)),
        ensures
            range_span_mapped(self, r, *map),
    {
        match self {
            VariableRange::BoundedInt { min, max, span } => VariableRange::BoundedInt {
                min: min.map_span(map),
                max: max.map_span(map),
                span: map(span),
            },
            VariableRange::UnboundedInt { span } => VariableRange::UnboundedInt { span: map(span) },
            VariableRange::Boolean { span } => VariableRange::Boolean { span: map(span) },
            VariableRange::Float { span } => VariableRange::Float { span: map(span) },
        }
    }
}

impl<S: Span> VariableRange<S, Expression<Identifier<S>, S>> {
    /// Applies the renaming rules to the bounds of a bounded integer; other variants are copied.
    pub fn renamed(&self, rename_rules: &RenameRules<S>) -> (r: Self)
        ensures
            range_renamed(*self, r, rename_rules.rules@),
    {
        match self {
            VariableRange::BoundedInt { min, max, span } => VariableRange::BoundedInt {
                min: min.renamed(rename_rules),
                max: max.renamed(rename_rules),
                span: span.duplicate(),
            },
            VariableRange::UnboundedInt { span } => VariableRange::UnboundedInt {
                span: span.duplicate(),
            },
            VariableRange::Boolean { span } => VariableRange::Boolean { span: span.duplicate() },
            VariableRange::Float { span } => VariableRange::Float { span: span.duplicate() },
        }
    }
}

/// Determines which variables are printed, and how: constants, global variables, or the local
/// variables of one module.
#[derive(PartialEq, Eq, Structural, Copy, Clone, Debug)]
pub enum VariablePrintingStyle {
    /// The constants of a model.
    Const,
    /// The global variables of a model.
    GlobalVar,
    /// The local variables of the module with index `module_index`.
    LocalVar {
        /// The index of the module whose variables are printed.
        module_index: usize,
    },
}

/// Whether a variable is printed in the given style.
pub open spec fn style_accepts<S: Span, E>(style: VariablePrintingStyle, v: VariableInfo<S, E>) -> bool {
    match style {
        VariablePrintingStyle::Const => v.is_constant,
        VariablePrintingStyle::GlobalVar => !v.is_constant && v.scope is None,
        VariablePrintingStyle::LocalVar { module_index } => !v.is_constant && v.scope == Some(
            module_index,
        ),
    }
}

impl VariablePrintingStyle {
    /// Returns `true` if `variable` is printed in this style.
    pub fn accepts<S: Span, E>(&self, variable: &VariableInfo<S, E>) -> (r: bool)
        ensures
            r == style_accepts(*self, *variable),
    {
        match self {
            VariablePrintingStyle::Const => variable.is_constant,
            VariablePrintingStyle::GlobalVar => !variable.is_constant && variable.scope.is_none(),
            VariablePrintingStyle::LocalVar { module_index } => !variable.is_constant
                && match variable.scope {
                Some(m) => m == *module_index,
                None => false,
            },
        }
    }
}

/// Where a variable lives: a global variable, a global constant, a formula, or a local variable
/// of the named module.
#[derive(PartialEq, Eq, Debug, Clone)]
pub enum VariableScope {
    /// A global variable.
    GlobalVariable,
    /// A global constant.
    GlobalConst,
    /// A formula.
    Formula,
    /// A variable local to a module.
    LocalVariable {
        /// The name of the module.
        module: String,
    },
}

/// A reference to a variable together with its scope.
#[derive(PartialEq, Debug, Clone)]
pub struct GlobalVariableReference {
    reference: VariableReference,
    scope: VariableScope,
}

} // verus!
