use crate::command::{command_span_mapped, Command};
use crate::expressions::Expression;
use crate::identifier::{ident_span_mapped, Identifier};
use crate::names::{first_index_of, lemma_first_index_of, lemma_first_index_of_spec};
use crate::spans::Span;
use vstd::prelude::*;

verus! {

/// The result of looking up `name` in a list of renaming rules: the new name of the first rule
/// whose old name equals `name`, if any.
pub open spec fn spec_get_renaming<S: Span>(rules: Seq<RenameRule<S>>, name: Identifier<S>) -> Option<
    Identifier<S>,
>
    decreases rules.len(),
{
    if rules.len() == 0 {
        None
    } else if rules[0].old_name.name@ == name.name@ {
        Some(rules[0].new_name)
    } else {
        spec_get_renaming(rules.drop_first(), name)
    }
}

/// `name` after applying the renaming rules: the renaming if one exists, otherwise `name`.
pub open spec fn spec_renaming<S: Span>(rules: Seq<RenameRule<S>>, name: Identifier<S>) -> Identifier<S> {
    match spec_get_renaming(rules, name) {
        Some(n) => n,
        None => name,
    }
}

/// A list of renaming rules, applied simultaneously.
#[derive(Debug)]
pub struct RenameRules<S: Span> {
    /// The list of renaming rules.
    pub rules: Vec<RenameRule<S>>,
}

impl<S: Span> RenameRules<S> {
    /// Constructs an empty set of renaming rules.
    pub fn new() -> (r: Self)
        ensures
            r.rules@ == Seq::<RenameRule<S>>::empty(),
    {
        RenameRules { rules: Vec::new() }
    }

    /// Constructs a set of renaming rules from the given rules.
    pub fn with_rules(rules: Vec<RenameRule<S>>) -> (r: Self)
        ensures
            r.rules@ == rules@,
    {
        RenameRules { rules }
    }

    /// Adds a rule to the end of the list.
    pub fn add_rule(&mut self, rule: RenameRule<S>)
        ensures
            final(self).rules@ == old(self).rules@.push(rule),
    {
        self.rules.push(rule);
    }

    /// Looks up the renaming of `old_name`: the new name of the first rule whose old name equals
    /// `old_name`, or `None`.
    pub fn get_renaming(&self, old_name: &Identifier<S>) -> (r: Option<Identifier<S>>)
        ensures
            r == spec_get_renaming(self.rules@, *old_name),
    {
        let mut i: usize = 0;
        assert(self.rules@.skip(0) =~= self.rules@);
        while i < self.rules.len()
            invariant
                i <= self.rules@.len(),
                spec_get_renaming(self.rules@, *old_name) == spec_get_renaming(
                    self.rules@.skip(i as int),
                    *old_name,
                ),
            decreases self.rules.len() - i,
        {
            assert(self.rules@.skip(i as int).drop_first() =~= self.rules@.skip(i + 1));
            if self.rules[i].old_name == *old_name {
                return Some(self.rules[i].new_name.duplicate());
            }
            i = i + 1;
        }
        None
    }
}

/// A renaming rule: `old_name` is renamed to `new_name`.
#[derive(Debug)]
pub struct RenameRule<S: Span> {
    /// The old name which is renamed by this rule.
    pub old_name: Identifier<S>,
    /// The new name.
    pub new_name: Identifier<S>,
    /// The span covering the renaming rule.
    pub span: S,
}

impl<S: Span> RenameRule<S> {
    /// Constructs a renaming rule with an empty span.
    pub fn new(old_name: Identifier<S>, new_name: Identifier<S>) -> (r: Self)
        ensures
            r.old_name == old_name,
            r.new_name == new_name,
            r.span.spec_range() is None,
    {
        Self::new_spanned(old_name, new_name, S::empty())
    }

    /// Constructs a renaming rule with the given span.
    pub fn new_spanned(old_name: Identifier<S>, new_name: Identifier<S>, span: S) -> (r: Self)
        ensures
            r == (RenameRule { old_name, new_name, span }),
    {
        RenameRule { old_name, new_name, span }
    }

    /// Maps the spans of this rule (both names and the rule itself) with `map`.
    pub fn map_span<S2: Span, F: Fn(S) -> S2>(self, map: &F) -> (r: RenameRule<S2>)
        requires
            forall|s: S| #[trigger] call_requires(*map, (s,)),
        ensures
            rule_span_mapped(self, r, *map),
    {
        RenameRule {
            old_name: self.old_name.map_span(map),
            new_name: self.new_name.map_span(map),
            span: map(self.span),
        }
    }
}

/// `b` is `a` with every span mapped by `f`.
pub open spec fn rule_span_mapped<S: Span, S2: Span, F: Fn(S) -> S2>(
    a: RenameRule<S>,
    b: RenameRule<S2>,
    f: F,
) -> bool {
    &&& ident_span_mapped(a.old_name, b.old_name, f)
    &&& ident_span_mapped(a.new_name, b.new_name, f)
    &&& call_ensures(f, (a.span,), b.span)
}

/// `b` is `a` with every span mapped by `f`.
pub open spec fn renamed_module_span_mapped<S: Span, S2: Span, F: Fn(S) -> S2>(
    a: RenamedModule<S>,
    b: RenamedModule<S2>,
    f: F,
) -> bool {
    &&& ident_span_mapped(a.old_name, b.old_name, f)
    &&& ident_span_mapped(a.new_name, b.new_name, f)
    &&& b.rename_rules.rules@.len() == a.rename_rules.rules@.len()
    &&& forall|i: int|
        0 <= i < a.rename_rules.rules@.len() ==> #[trigger] rule_span_mapped(
            a.rename_rules.rules@[i],
            b.rename_rules.rules@[i],
            f,
        )
    &&& call_ensures(f, (a.span,), b.span)
}

/// A renamed module: `module new_name = old_name [rules] endmodule`.
#[derive(Debug)]
pub struct RenamedModule<S: Span> {
    /// The name of the module that is copied.
    pub old_name: Identifier<S>,
    /// The name of the new module.
    pub new_name: Identifier<S>,
    /// The renaming of variables (and actions) in the copy.
    pub rename_rules: RenameRules<S>,
    /// The span of the renamed module definition.
    pub span: S,
}

impl<S: Span> RenamedModule<S> {
    /// Constructs a renamed module with an empty span.
    pub fn new(old_name: Identifier<S>, new_name: Identifier<S>, rename_rules: RenameRules<S>) -> (r: Self)
        ensures
            r.old_name == old_name,
            r.new_name == new_name,
            r.rename_rules == rename_rules,
            r.span.spec_range() is None,
    {
        Self::new_spanned(old_name, new_name, rename_rules, S::empty())
    }

    /// Constructs a renamed module with the given span.
    pub fn new_spanned(
        old_name: Identifier<S>,
        new_name: Identifier<S>,
        rename_rules: RenameRules<S>,
        span: S,
    ) -> (r: Self)
        ensures
            r == (RenamedModule { old_name, new_name, rename_rules, span }),
    {
        RenamedModule { old_name, new_name, rename_rules, span }
    }

    /// Maps every span of this renamed module (names, rules, definition) with `map`.
    pub fn map_span<S2: Span, F: Fn(S) -> S2>(self, map: &F) -> (r: RenamedModule<S2>)
        requires
            forall|s: S| #[trigger] call_requires(*map, (s,)),
        ensures
            renamed_module_span_mapped(self, r, *map),
    {
        let mut rules: Vec<RenameRule<S2>> = Vec::new();
        let mut rest = self.rename_rules.rules;
        let ghost orig = rest@;
        assert(orig.skip(0) =~= orig);
        while rest.len() > 0
            invariant
                forall|s: S| #[trigger] call_requires(*map, (s,)),
                rules@.len() <= orig.len(),
                rest@ == orig.skip(rules@.len() as int),
                forall|j: int| 0 <= j < rules@.len() ==> #[trigger] rule_span_mapped(orig[j], rules@[j], *map),
            decreases rest.len(),
        {
            let ghost k = rules@.len() as int;
            proof {
                assert(orig.skip(k).drop_first() =~= orig.skip(k + 1));
            }
            let rule = rest.remove(0);
            rules.push(rule.map_span(map));
        }
        RenamedModule {
            old_name: self.old_name.map_span(map),
            new_name: self.new_name.map_span(map),
            rename_rules: RenameRules { rules },
            span: map(self.span),
        }
    }
}

/// A module: a name and a list of commands. Its variables are kept in the model's
/// [`VariableManager`](crate::VariableManager), with the module's index as their scope.
#[derive(Debug)]
pub struct Module<V, S: Span, E, A> {
    /// The name of the module.
    pub name: Identifier<S>,
    /// The commands of the module.
    pub commands: Vec<Command<V, S, E, A>>,
    /// The span of the module.
    pub span: S,
}

impl<V, S: Span, E, A> Module<V, S, E, A> {
    /// Constructs a module without commands, with an empty span.
    pub fn new(name: Identifier<S>) -> (r: Self)
        ensures
            r.name == name,
            r.commands@.len() == 0,
            r.span.spec_range() is None,
    {
        Self::new_spanned(name, S::empty())
    }

    /// Constructs a module without commands, with the given span.
    pub fn new_spanned(name: Identifier<S>, span: S) -> (r: Self)
        ensures
            r.name == name,
            r.commands@.len() == 0,
            r.span == span,
    {
        Module { name, commands: Vec::new(), span }
    }
}

/// `b` is `a` with every span mapped by `f`.
pub open spec fn module_span_mapped<V, S: Span, S2: Span, A, F: Fn(S) -> S2>(
    a: Module<V, S, Expression<V, S>, A>,
    b: Module<V, S2, Expression<V, S2>, A>,
    f: F,
) -> bool {
    &&& ident_span_mapped(a.name, b.name, f)
    &&& b.commands@.len() == a.commands@.len()
    &&& forall|i: int|
        0 <= i < a.commands@.len() ==> #[trigger] command_span_mapped(a.commands@[i], b.commands@[i], f)
    &&& call_ensures(f, (a.span,), b.span)
}

impl<V, S: Span, A> Module<V, S, Expression<V, S>, A> {
    /// Maps every span of this module with `map`.
    pub fn map_span<S2: Span, F: Fn(S) -> S2>(self, map: &F) -> (r: Module<
        V,
        S2,
        Expression<V, S2>,
        A,
    >)
        requires
            forall|s: S| #[trigger] call_requires(*map, (s,)),
        ensures
            module_span_mapped(self, r, *map),
    {
        let mut commands: Vec<Command<V, S2, Expression<V, S2>, A>> = Vec::new();
        let mut rest = self.commands;
        let ghost orig = rest@;
        assert(orig.skip(0) =~= orig);
        while rest.len() > 0
            invariant
                forall|s: S| #[trigger] call_requires(*map, (s,)),
                commands@.len() <= orig.len(),
                rest@ == orig.skip(commands@.len() as int),
                forall|j: int|
                    0 <= j < commands@.len() ==> #[trigger] command_span_mapped(orig[j], commands@[j], *map),
            decreases rest.len(),
        {
            let ghost k = commands@.len() as int;
            proof {
                assert(orig.skip(k).drop_first() =~= orig.skip(k + 1));
            }
            let c = rest.remove(0);
            commands.push(c.map_span(map));
        }
        Module { name: self.name.map_span(map), commands, span: map(self.span) }
    }
}

/// The names of a list of modules, in order.
pub open spec fn module_names<V, S: Span, E, A>(modules: Seq<Module<V, S, E, A>>) -> Seq<Seq<char>> {
    modules.map_values(|m: Module<V, S, E, A>| m.name.name@)
}

/// The modules of a model, in order.
#[derive(Debug)]
pub struct ModuleManager<V, S: Span, E, A> {
    /// The modules.
    pub modules: Vec<Module<V, S, E, A>>,
}

/// Error produced when adding a module whose name is already taken.
#[derive(Debug, PartialEq, Eq, Structural)]
pub enum AddModuleError {
    /// A module with the same name exists at `index`.
    ModuleExists {
        /// The index of the existing module.
        index: usize,
    },
}

impl<V, S: Span, E, A> ModuleManager<V, S, E, A> {
    /// Constructs an empty module manager.
    pub fn new() -> (r: Self)
        ensures
            r.modules@.len() == 0,
    {
        ModuleManager { modules: Vec::new() }
    }

    /// Constructs a module manager holding the given modules, as they are (names are not
    /// checked for duplicates).
    pub fn with_modules(modules: Vec<Module<V, S, E, A>>) -> (r: Self)
        ensures
            r.modules@ == modules@,
    {
        ModuleManager { modules }
    }

    /// Returns the module at `index`, or `None` if there is none.
    pub fn get(&self, index: usize) -> (r: Option<&Module<V, S, E, A>>)
        ensures
            r == if index < self.modules@.len() {
                Some(&self.modules@[index as int])
            } else {
                None::<&Module<V, S, E, A>>
            },
    {
        if index < self.modules.len() {
            Some(&self.modules[index])
        } else {
            None
        }
    }

    /// Returns the index of the first module named like `name`, or `None`.
    pub fn get_index_by_name(&self, name: &Identifier<S>) -> (r: Option<usize>)
        ensures
            r == match first_index_of(module_names(self.modules@), name.name@) {
                Some(i) => Some(i as usize),
                None => None::<usize>,
            },
    {
        self.get_index_by_str(name.name.as_str())
    }

    /// Returns the index of the first module with the given name, or `None`.
    pub fn get_index_by_str(&self, name: &str) -> (r: Option<usize>)
        ensures
            r == match first_index_of(module_names(self.modules@), name@) {
                Some(i) => Some(i as usize),
                None => None::<usize>,
            },
    {
        let ghost names = module_names(self.modules@);
        let mut index: usize = 0;
        while index < self.modules.len()
            invariant
                names == module_names(self.modules@),
                index <= self.modules@.len(),
                forall|j: int| 0 <= j < index ==> names[j] != name@,
            decreases self.modules.len() - index,
        {
            if crate::identifier::str_equal(self.modules[index].name.name.as_str(), name) {
                proof {
                    lemma_first_index_of(names, name@, index as int);
                }
                return Some(index);
            }
            index = index + 1;
        }
        proof {
            lemma_first_index_of(names, name@, index as int);
        }
        None
    }

    /// Returns the first module named like `name`, or `None`.
    pub fn get_by_name(&self, name: &Identifier<S>) -> (r: Option<&Module<V, S, E, A>>)
        ensures
            r == match first_index_of(module_names(self.modules@), name.name@) {
                Some(i) => Some(&self.modules@[i]),
                None => None::<&Module<V, S, E, A>>,
            },
    {
        self.get_by_str(name.name.as_str())
    }

    /// Returns the first module with the given name, or `None`.
    pub fn get_by_str(&self, name: &str) -> (r: Option<&Module<V, S, E, A>>)
        ensures
            r == match first_index_of(module_names(self.modules@), name@) {
                Some(i) => Some(&self.modules@[i]),
                None => None::<&Module<V, S, E, A>>,
            },
    {
        proof {
            lemma_first_index_of_spec(module_names(self.modules@), name@);
        }
        match self.get_index_by_str(name) {
            Some(index) => {
                proof {
                    assert(self.modules@.len() == self.modules.len());
                }
                self.get(index)
            },
            None => None,
        }
    }

    /// Adds a module.
    ///
    /// If a module with the same name exists, returns [`AddModuleError::ModuleExists`] with the
    /// index of the first such module and leaves the manager unchanged. Otherwise appends the
    /// module and returns its index.
    pub fn add(&mut self, module: Module<V, S, E, A>) -> (r: Result<usize, AddModuleError>)
        ensures
            match first_index_of(module_names(old(self).modules@), module.name.name@) {
                Some(i) => r == Err::<usize, AddModuleError>(
                    AddModuleError::ModuleExists { index: i as usize },
                ) && final(self).modules@ == old(self).modules@,
                None => r == Ok::<usize, AddModuleError>(old(self).modules@.len() as usize)
                    && final(self).modules@ == old(self).modules@.push(module),
            },
    {
        match self.get_index_by_name(&module.name) {
            Some(index) => Err(AddModuleError::ModuleExists { index }),
            None => {
                let index = self.modules.len();
                self.modules.push(module);
                Ok(index)
            },
        }
    }
}

impl<V, S: Span, A> ModuleManager<V, S, Expression<V, S>, A> {
    /// Maps every span of every module with `map`.
    pub fn map_span<S2: Span, F: Fn(S) -> S2>(self, map: &F) -> (r: ModuleManager<
        V,
        S2,
        Expression<V, S2>,
        A,
    >)
        requires
            forall|s: S| #[trigger] call_requires(*map, (s,)),
        ensures
            r.modules@.len() == self.modules@.len(),
            forall|i: int|
                0 <= i < self.modules@.len() ==> #[trigger] module_span_mapped(
                    self.modules@[i],
                    r.modules@[i],
                    *map,
                ),
    {
        let mut modules: Vec<Module<V, S2, Expression<V, S2>, A>> = Vec::new();
        let mut rest = self.modules;
        let ghost orig = rest@;
        assert(orig.skip(0) =~= orig);
        while rest.len() > 0
            invariant
                forall|s: S| #[trigger] call_requires(*map, (s,)),
                modules@.len() <= orig.len(),
                rest@ == orig.skip(modules@.len() as int),
                forall|j: int|
                    0 <= j < modules@.len() ==> #[trigger] module_span_mapped(orig[j], modules@[j], *map),
            decreases rest.len(),
        {
            let ghost k = modules@.len() as int;
            proof {
                assert(orig.skip(k).drop_first() =~= orig.skip(k + 1));
            }
            let m = rest.remove(0);
            modules.push(m.map_span(map));
        }
        ModuleManager { modules }
    }
}

} // verus!
