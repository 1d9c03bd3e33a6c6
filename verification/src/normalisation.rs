use crate::command::{command_renamed, Command, Update};
use crate::expressions::{substituted, substituted_in_turn, Expression};
use crate::formula_dependencies::{
    dependency_graph, describes_cycle, has_dependency_cycle, is_replacement_ordering, lemma_reversed_expansion,
    reversed_order, CyclicDependency,
};
use crate::formulas::FormulaManager;
use crate::identifier::Identifier;
use crate::model::Model;
use crate::module::{module_names, AddModuleError, Module, RenamedModule};
use crate::names::{first_index_of, lemma_first_index_of_spec};
use crate::variables::{first_unrenamed_from, renamed_copies, VariableInfo};
use crate::model_maps::{calls, lemma_model_parts_weaken, model_parts_mapped, same};
use crate::spans::Span;
use crate::substitution::formula_steps;
use vstd::prelude::*;

verus! {

/// Substitutes the formulas of `formulas` into `e`, one after the other in the given order.
pub(crate) fn substitute_in_order<S: Span>(
    e: Expression<Identifier<S>, S>,
    formulas: &FormulaManager<S, Expression<Identifier<S>, S>>,
    order: &Vec<usize>,
) -> (r: Expression<Identifier<S>, S>)
    requires
        forall|p: int| 0 <= p < order@.len() ==> #[trigger] order@[p] < formulas.formulas@.len(),
    ensures
        substituted_in_turn(e, r, formula_steps(formulas.formulas@, order@), false),
{
    let ghost steps = formula_steps(formulas.formulas@, order@);
    let ghost mut chain: Seq<Expression<Identifier<S>, S>> = seq![e];
    let ghost e0 = e;
    let mut current = e;
    let mut i: usize = 0;
    while i < order.len()
        invariant
            steps == formula_steps(formulas.formulas@, order@),
            forall|p: int| 0 <= p < order@.len() ==> #[trigger] order@[p] < formulas.formulas@.len(),
            i <= order@.len(),
            chain.len() == i + 1,
            chain[0] == e0,
            chain.last() == current,
            forall|k: int| 0 <= k < i ==> substituted(#[trigger] chain[k], chain[k + 1], steps[k].0, steps[k].1, false),
        decreases order.len() - i,
    {
        let formula = &formulas.formulas[order[i]];
        let next = current.substitute(&formula.name, &formula.condition, false);
        proof {
            assert forall|k: int| 0 <= k < i + 1 implies substituted(
                #[trigger] chain.push(next)[k],
                chain.push(next)[k + 1],
                steps[k].0,
                steps[k].1,
                false,
            ) by {
                if k < i {
                    assert(chain.push(next)[k] == chain[k]);
                    assert(chain.push(next)[k + 1] == chain[k + 1]);
                }
            }
            chain = chain.push(next);
        }
        current = next;
        i = i + 1;
    }
    proof {
        assert(substituted_in_turn(e0, current, steps, false));
    }
    current
}

/// The relation "substituting the formulas in the given order turns `a` into `b`".
pub open spec fn substituted_formulas<S: Span>(
    formulas: Seq<crate::formulas::Formula<S, Expression<Identifier<S>, S>>>,
    order: Seq<usize>,
) -> spec_fn(Expression<Identifier<S>, S>, Expression<Identifier<S>, S>) -> bool {
    |a: Expression<Identifier<S>, S>, b: Expression<Identifier<S>, S>|
        substituted_in_turn(a, b, formula_steps(formulas, order), false)
}

impl<S: Span, A> Model<Identifier<S>, S, Expression<Identifier<S>, S>, A> {
    /// Replaces every reference to a formula in the model (variable bounds and initial values,
    /// guards, probabilities, assigned values, init constraint, labels, rewards) by the formula's
    /// condition, substituting the formulas in the reverse of the order of
    /// [`FormulaManager::get_formula_replacement_ordering`]; then removes the formulas.
    ///
    /// Fails, leaving the model unchanged, if the formulas depend on each other cyclically.
    pub fn substitute_formulas(&mut self) -> (r: Result<(), CyclicDependency<S>>)
        ensures
            r is Ok <==> !has_dependency_cycle(dependency_graph(old(self).formulas.formulas@)),
            r matches Err(c) ==> describes_cycle(
                old(self).formulas.formulas@,
                dependency_graph(old(self).formulas.formulas@),
                c.entries@,
            ) && *final(self) == *old(self),
            r is Ok ==> final(self).formulas.formulas@.len() == 0 && exists|order: Seq<usize>|
                is_replacement_ordering(dependency_graph(old(self).formulas.formulas@), order)
                    && model_parts_mapped(
                    *old(self),
                    *final(self),
                    same(),
                    substituted_formulas(old(self).formulas.formulas@, order),
                ),
    {
        let expansion = match self.formulas.get_formula_replacement_ordering() {
            Ok(order) => order,
            Err(c) => {
                return Err(c);
            },
        };
        proof {
            lemma_reversed_expansion(dependency_graph(self.formulas.formulas@), expansion@);
        }
        let order = reversed_order(&expansion);
        let ghost g = dependency_graph(self.formulas.formulas@);
        let mut formulas = FormulaManager::new();
        std::mem::swap(&mut formulas, &mut self.formulas);
        let ghost before = *self;
        let fr = &formulas;
        let ord = &order;
        let f = |e: Expression<Identifier<S>, S>| -> (r: Expression<Identifier<S>, S>)
            requires
                forall|p: int| 0 <= p < ord@.len() ==> #[trigger] ord@[p] < fr.formulas@.len(),
            ensures
                substituted_in_turn(e, r, formula_steps(fr.formulas@, ord@), false),
            { substitute_in_order(e, fr, ord) };
        proof {
            assert(forall|p: int| 0 <= p < ord@.len() ==> #[trigger] ord@[p] < g.len());
        }
        self.map_expressions(f);
        proof {
            let re = substituted_formulas(formulas.formulas@, order@);
            assert forall|x: Expression<Identifier<S>, S>, y: Expression<Identifier<S>, S>|
                #[trigger] calls(f)(x, y) implies re(x, y) by {}
            lemma_model_parts_weaken(before, *self, same(), calls(f), re);
        }
        Ok(())
    }
}


/// An error produced while expanding renamed modules.
#[derive(Debug, PartialEq)]
pub enum ModuleExpansionError<S: Span> {
    /// The module that a renamed module copies does not exist.
    RenamingSourceDoesNotExist {
        /// The name of the module to be copied.
        old_name: Identifier<S>,
        /// The name of the new module.
        new_name: Identifier<S>,
        /// The span of the renamed module definition.
        renaming_rule: S,
    },
    /// A variable of the copied module has no renaming rule.
    MissingVariableRenaming {
        /// The name of the variable.
        variable_name: Identifier<S>,
        /// The span of the variable's definition.
        original_definition: S,
        /// The span of the renamed module definition.
        rename_rule: S,
    },
    /// A module with the name of the new module exists already.
    DuplicateModule {
        /// The name of the new module.
        name: Identifier<S>,
        /// The span of the existing module.
        original_module: S,
        /// The span of the renamed module definition.
        rename_rule: S,
    },
}

/// `m` is the module that the renamed module `rm` makes of `source`: the new name, the commands
/// of `source` renamed by the rules, and the span of the renamed module definition.
pub open spec fn module_renamed<S: Span>(
    source: Module<Identifier<S>, S, Expression<Identifier<S>, S>, Identifier<S>>,
    rm: RenamedModule<S>,
    m: Module<Identifier<S>, S, Expression<Identifier<S>, S>, Identifier<S>>,
) -> bool {
    &&& m.name == rm.new_name
    &&& m.span == rm.span
    &&& m.commands@.len() == source.commands@.len()
    &&& forall|i: int|
        0 <= i < source.commands@.len() ==> #[trigger] command_renamed(
            source.commands@[i],
            m.commands@[i],
            rm.rename_rules.rules@,
        )
}

/// The variables `vars1` are `vars0` followed by the renamed copies (for the new module index
/// `new_index`) of the variables of module `source` that come before position `upto`.
pub open spec fn variables_copied<S: Span>(
    vars0: Seq<VariableInfo<S, Expression<Identifier<S>, S>>>,
    vars1: Seq<VariableInfo<S, Expression<Identifier<S>, S>>>,
    upto: int,
    source: usize,
    new_index: usize,
    rm: RenamedModule<S>,
) -> bool {
    &&& vars1.len() >= vars0.len()
    &&& vars1.take(vars0.len() as int) == vars0
    &&& renamed_copies(vars0, vars1.skip(vars0.len() as int), upto, source, new_index, rm.rename_rules.rules@)
}

/// Expanding the renamed module `rm` turns the variables `vars0` and modules `mods0` into `vars1`
/// and `mods1`: the module to copy exists, every one of its variables has a renaming rule, and
/// the new module's name is not taken.
pub open spec fn expansion_step<S: Span>(
    vars0: Seq<VariableInfo<S, Expression<Identifier<S>, S>>>,
    mods0: Seq<Module<Identifier<S>, S, Expression<Identifier<S>, S>, Identifier<S>>>,
    rm: RenamedModule<S>,
    vars1: Seq<VariableInfo<S, Expression<Identifier<S>, S>>>,
    mods1: Seq<Module<Identifier<S>, S, Expression<Identifier<S>, S>, Identifier<S>>>,
) -> bool {
    match first_index_of(module_names(mods0), rm.old_name.name@) {
        None => false,
        Some(source) => {
            &&& first_unrenamed_from(vars0, source as usize, rm.rename_rules.rules@, 0) is None
            &&& variables_copied(vars0, vars1, vars0.len() as int, source as usize, mods0.len() as usize, rm)
            &&& first_index_of(module_names(mods0), rm.new_name.name@) is None
            &&& mods1.len() == mods0.len() + 1
            &&& mods1.drop_last() == mods0
            &&& module_renamed(mods0[source], rm, mods1.last())
        },
    }
}

/// Expanding the renamed module `rm` from the variables `vars0` and modules `mods0` fails with
/// `e`, leaving the variables `vars1` and modules `mods1`.
pub open spec fn expansion_failure<S: Span>(
    vars0: Seq<VariableInfo<S, Expression<Identifier<S>, S>>>,
    mods0: Seq<Module<Identifier<S>, S, Expression<Identifier<S>, S>, Identifier<S>>>,
    rm: RenamedModule<S>,
    e: ModuleExpansionError<S>,
    vars1: Seq<VariableInfo<S, Expression<Identifier<S>, S>>>,
    mods1: Seq<Module<Identifier<S>, S, Expression<Identifier<S>, S>, Identifier<S>>>,
) -> bool {
    match first_index_of(module_names(mods0), rm.old_name.name@) {
        None => {
            &&& e == (ModuleExpansionError::RenamingSourceDoesNotExist {
                old_name: rm.old_name,
                new_name: rm.new_name,
                renaming_rule: rm.span,
            })
            &&& vars1 == vars0
            &&& mods1 == mods0
        },
        Some(source) => match first_unrenamed_from(vars0, source as usize, rm.rename_rules.rules@, 0) {
            Some(f) => {
                &&& e == (ModuleExpansionError::MissingVariableRenaming {
                    variable_name: vars0[f].name,
                    original_definition: vars0[f].span,
                    rename_rule: rm.span,
                })
                &&& variables_copied(vars0, vars1, f, source as usize, mods0.len() as usize, rm)
                &&& mods1 == mods0
            },
            None => match first_index_of(module_names(mods0), rm.new_name.name@) {
                Some(existing) => {
                    &&& e == (ModuleExpansionError::DuplicateModule {
                        name: rm.new_name,
                        original_module: mods0[existing].span,
                        rename_rule: rm.span,
                    })
                    &&& variables_copied(vars0, vars1, vars0.len() as int, source as usize, mods0.len() as usize, rm)
                    &&& mods1 == mods0
                },
                None => false,
            },
        },
    }
}

/// The first `k` renamed modules of `rms` expand one after the other, leading through the
/// variables `vchain` and modules `mchain`.
pub open spec fn expansion_chain<S: Span>(
    vchain: Seq<Seq<VariableInfo<S, Expression<Identifier<S>, S>>>>,
    mchain: Seq<Seq<Module<Identifier<S>, S, Expression<Identifier<S>, S>, Identifier<S>>>>,
    rms: Seq<RenamedModule<S>>,
    k: int,
) -> bool {
    &&& 0 <= k <= rms.len()
    &&& vchain.len() == k + 1
    &&& mchain.len() == k + 1
    &&& forall|j: int|
        0 <= j < k ==> #[trigger] expansion_step(vchain[j], mchain[j], rms[j], vchain[j + 1], mchain[j + 1])
}

impl<S: Span> Model<Identifier<S>, S, Expression<Identifier<S>, S>, Identifier<S>> {
    /// Expands each renamed module, in order, into a module of its own: a copy of the source
    /// module's commands with the renaming rules applied, named as the renamed module says, and
    /// copies of the source module's local variables renamed and local to the new module.
    ///
    /// The renamed modules are removed first. Fails at the first renamed module whose source
    /// does not exist, that leaves a variable of the source without renaming rule, or whose new
    /// name is taken; the expansions made before stay (and, for a missing renaming, the copies of
    /// the variables made before it). The model must not contain formulas.
    pub fn expand_renamed_modules(&mut self) -> (r: Result<(), ModuleExpansionError<S>>)
        requires
            old(self).formulas.formulas@.len() == 0,
        ensures
            final(self).renamed_modules@.len() == 0,
            final(self).model_type == old(self).model_type,
            final(self).formulas == old(self).formulas,
            final(self).init_constraint == old(self).init_constraint,
            final(self).labels == old(self).labels,
            final(self).rewards == old(self).rewards,
            final(self).span == old(self).span,
            exists|
                vchain: Seq<Seq<VariableInfo<S, Expression<Identifier<S>, S>>>>,
                mchain: Seq<Seq<Module<Identifier<S>, S, Expression<Identifier<S>, S>, Identifier<S>>>>,
                k: int,
            |
                {
                    &&& #[trigger] expansion_chain(vchain, mchain, old(self).renamed_modules@, k)
                    &&& vchain[0] == old(self).variable_manager.variables@
                    &&& mchain[0] == old(self).modules.modules@
                    &&& match r {
                        Ok(()) => k == old(self).renamed_modules@.len()
                            && final(self).variable_manager.variables@ == vchain[k]
                            && final(self).modules.modules@ == mchain[k],
                        Err(e) => k < old(self).renamed_modules@.len() && expansion_failure(
                            vchain[k],
                            mchain[k],
                            old(self).renamed_modules@[k],
                            e,
                            final(self).variable_manager.variables@,
                            final(self).modules.modules@,
                        ),
                    }
                },
    {
        let mut renamed_modules: Vec<RenamedModule<S>> = Vec::new();
        std::mem::swap(&mut renamed_modules, &mut self.renamed_modules);
        let ghost mut vchain: Seq<Seq<VariableInfo<S, Expression<Identifier<S>, S>>>> = seq![
            self.variable_manager.variables@,
        ];
        let ghost mut mchain: Seq<Seq<Module<Identifier<S>, S, Expression<Identifier<S>, S>, Identifier<S>>>> = seq![
            self.modules.modules@,
        ];
        let mut i: usize = 0;
        while i < renamed_modules.len()
            invariant
                renamed_modules@ == old(self).renamed_modules@,
                self.renamed_modules@.len() == 0,
                self.model_type == old(self).model_type,
                self.formulas == old(self).formulas,
                self.init_constraint == old(self).init_constraint,
                self.labels == old(self).labels,
                self.rewards == old(self).rewards,
                self.span == old(self).span,
                i <= renamed_modules@.len(),
                vchain.len() == i + 1,
                mchain.len() == i + 1,
                vchain[0] == old(self).variable_manager.variables@,
                mchain[0] == old(self).modules.modules@,
                vchain.last() == self.variable_manager.variables@,
                mchain.last() == self.modules.modules@,
                forall|j: int|
                    0 <= j < i ==> #[trigger] expansion_step(
                        vchain[j],
                        mchain[j],
                        renamed_modules@[j],
                        vchain[j + 1],
                        mchain[j + 1],
                    ),
            decreases renamed_modules.len() - i,
        {
            let rm = &renamed_modules[i];
            let ghost vars0 = self.variable_manager.variables@;
            let ghost mods0 = self.modules.modules@;
            proof {
                lemma_first_index_of_spec(module_names(mods0), rm.old_name.name@);
                lemma_first_index_of_spec(module_names(mods0), rm.new_name.name@);
            }
            let source_index = match self.modules.get_index_by_name(&rm.old_name) {
                Some(index) => index,
                None => {
                    let error = ModuleExpansionError::RenamingSourceDoesNotExist {
                        old_name: rm.old_name.duplicate(),
                        new_name: rm.new_name.duplicate(),
                        renaming_rule: rm.span.duplicate(),
                    };
                    proof {
                        assert(expansion_chain(vchain, mchain, renamed_modules@, i as int));
                    }
                    return Err(error);
                },
            };
            proof {
                assert(module_names(mods0).len() == mods0.len());
            }
            let mut commands: Vec<Command<Identifier<S>, S, Expression<Identifier<S>, S>, Identifier<S>>> = Vec::new();
            let mut c: usize = 0;
            while c < self.modules.modules[source_index].commands.len()
                invariant
                    source_index < self.modules.modules@.len(),
                    c <= self.modules.modules@[source_index as int].commands@.len(),
                    commands@.len() == c,
                    forall|j: int|
                        0 <= j < c ==> #[trigger] command_renamed(
                            self.modules.modules@[source_index as int].commands@[j],
                            commands@[j],
                            rm.rename_rules.rules@,
                        ),
                decreases self.modules.modules@[source_index as int].commands@.len() - c,
            {
                commands.push(self.modules.modules[source_index].commands[c].renamed(&rm.rename_rules));
                c = c + 1;
            }
            let module = Module { name: rm.new_name.duplicate(), commands, span: rm.span.duplicate() };
            let new_index = self.modules.modules.len();
            match self.variable_manager.add_renamed(source_index, new_index, &rm.rename_rules) {
                Ok(_) => {},
                Err(e) => {
                    let error = ModuleExpansionError::MissingVariableRenaming {
                        variable_name: e.variable_name,
                        original_definition: e.original_definition_span,
                        rename_rule: rm.span.duplicate(),
                    };
                    proof {
                        assert(expansion_chain(vchain, mchain, renamed_modules@, i as int));
                    }
                    return Err(error);
                },
            }
            let ghost vars1 = self.variable_manager.variables@;
            match self.modules.add(module) {
                Ok(_) => {},
                Err(AddModuleError::ModuleExists { index }) => {
                    let error = ModuleExpansionError::DuplicateModule {
                        name: rm.new_name.duplicate(),
                        original_module: self.modules.modules[index].span.duplicate(),
                        rename_rule: rm.span.duplicate(),
                    };
                    proof {
                        assert(expansion_chain(vchain, mchain, renamed_modules@, i as int));
                    }
                    return Err(error);
                },
            }
            proof {
                assert(self.modules.modules@.drop_last() =~= mods0);
                assert(expansion_step(vars0, mods0, renamed_modules@[i as int], vars1, self.modules.modules@));
                vchain = vchain.push(vars1);
                mchain = mchain.push(self.modules.modules@);
            }
            i = i + 1;
        }
        proof {
            assert(expansion_chain(vchain, mchain, renamed_modules@, i as int));
        }
        Ok(())
    }
}


/// The bit pattern of the IEEE 754 binary64 value `1.0`.
pub const ONE_BITS: u64 = 0x3FF0_0000_0000_0000u64;

/// `b` is the command `a`, with the update `1.0 : ()` (spanned by the command's span) if `a` has
/// no updates.
pub open spec fn identity_update_added<V, S: Span, A>(
    a: Command<V, S, Expression<V, S>, A>,
    b: Command<V, S, Expression<V, S>, A>,
) -> bool {
    if a.updates@.len() == 0 {
        &&& b == (Command { updates: b.updates, ..a })
        &&& b.updates@.len() == 1
        &&& b.updates@[0].probability == Expression::<V, S>::Float(ONE_BITS, a.span)
        &&& b.updates@[0].assignments@.len() == 0
        &&& b.updates@[0].span == a.span
    } else {
        b == a
    }
}

impl<V, S: Span, A> Model<V, S, Expression<V, S>, A> {
    /// Replaces each command without updates (`[a] g -> true;`) by one with the single update
    /// `1.0 : ()` (`[a] g -> 1.0 : true;`), spanned by the command's span. Everything else is
    /// kept.
    pub fn replace_empty_updates_with_identity_update(&mut self)
        ensures
            *final(self) == (Model { modules: final(self).modules, ..*old(self) }),
            final(self).modules.modules@.len() == old(self).modules.modules@.len(),
            forall|i: int|
                0 <= i < old(self).modules.modules@.len() ==> {
                    let m = #[trigger] old(self).modules.modules@[i];
                    let m2 = final(self).modules.modules@[i];
                    &&& m2.name == m.name
                    &&& m2.span == m.span
                    &&& m2.commands@.len() == m.commands@.len()
                    &&& forall|j: int|
                        0 <= j < m.commands@.len() ==> identity_update_added(
                            #[trigger] m.commands@[j],
                            m2.commands@[j],
                        )
                },
    {
        let mut modules: Vec<Module<V, S, Expression<V, S>, A>> = Vec::new();
        std::mem::swap(&mut modules, &mut self.modules.modules);
        let ghost orig = modules@;
        let mut out: Vec<Module<V, S, Expression<V, S>, A>> = Vec::new();
        let mut rest = modules;
        assert(orig.skip(0) =~= orig);
        while rest.len() > 0
            invariant
                out@.len() <= orig.len(),
                rest@ == orig.skip(out@.len() as int),
                forall|i: int|
                    0 <= i < out@.len() ==> {
                        let m = #[trigger] orig[i];
                        let m2 = out@[i];
                        &&& m2.name == m.name
                        &&& m2.span == m.span
                        &&& m2.commands@.len() == m.commands@.len()
                        &&& forall|j: int|
                            0 <= j < m.commands@.len() ==> identity_update_added(
                                #[trigger] m.commands@[j],
                                m2.commands@[j],
                            )
                    },
            decreases rest.len(),
        {
            proof {
                let k = out@.len() as int;
                assert(orig.skip(k).drop_first() =~= orig.skip(k + 1));
            }
            let module = rest.remove(0);
            let ghost cmds = module.commands@;
            let mut commands: Vec<Command<V, S, Expression<V, S>, A>> = Vec::new();
            let mut crest = module.commands;
            assert(cmds.skip(0) =~= cmds);
            while crest.len() > 0
                invariant
                    commands@.len() <= cmds.len(),
                    crest@ == cmds.skip(commands@.len() as int),
                    forall|j: int| 0 <= j < commands@.len() ==> identity_update_added(#[trigger] cmds[j], commands@[j]),
                decreases crest.len(),
            {
                proof {
                    let k = commands@.len() as int;
                    assert(cmds.skip(k).drop_first() =~= cmds.skip(k + 1));
                }
                let command = crest.remove(0);
                if command.updates.len() == 0 {
                    let ghost c0 = command;
                    let mut command = command;
                    let update = Update::new_spanned(
                        Expression::Float(ONE_BITS, command.span.duplicate()),
                        command.span.duplicate(),
                    );
                    command.updates.push(update);
                    proof {
                        assert(command == (Command { updates: command.updates, ..c0 }));
                    }
                    commands.push(command);
                } else {
                    commands.push(command);
                }
            }
            out.push(Module { name: module.name, commands, span: module.span });
        }
        self.modules.modules = out;
    }
}

} // verus!
