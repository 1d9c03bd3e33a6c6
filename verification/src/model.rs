
use crate::expressions::{mapped, span_map_node, Expression};
use crate::formulas::{formula_span_mapped, FormulaManager};
use crate::identifier::Identifier;
use crate::labels::{label_span_mapped, LabelManager};
use crate::module::{module_span_mapped, renamed_module_span_mapped, ModuleManager, RenamedModule};
use crate::rewards::{rewards_span_mapped, RewardsManager};
use crate::spans::Span;
use crate::variables::{infos_span_mapped, VariableManager};
use vstd::prelude::*;

verus! {

/// The type of a model: discrete-time Markov chain, continuous-time Markov chain, or Markov
/// decision process, with the span of the keyword.
#[derive(Clone, Copy, Debug)]
pub enum ModelType<S: Span> {
    /// A discrete-time Markov chain (`dtmc`).
    Dtmc(S),
    /// A continuous-time Markov chain (`ctmc`).
    Ctmc(S),
    /// A Markov decision process (`mdp`).
    Mdp(S),
}

/// The span of a model type.
pub open spec fn model_type_span<S: Span>(t: ModelType<S>) -> S {
    match t {
        ModelType::Dtmc(s) => s,
        ModelType::Ctmc(s) => s,
        ModelType::Mdp(s) => s,
    }
}

/// `b` is the model type `a` with its span mapped by `f`.
pub open spec fn model_type_span_mapped<S: Span, S2: Span, F: Fn(S) -> S2>(
    a: ModelType<S>,
    b: ModelType<S2>,
    f: F,
) -> bool {
    &&& (a is Dtmc <==> b is Dtmc)
    &&& (a is Ctmc <==> b is Ctmc)
    &&& (a is Mdp <==> b is Mdp)
    &&& call_ensures(f, (model_type_span(a),), model_type_span(b))
}

impl<S: Span> ModelType<S> {
    /// A DTMC with an empty span.
    pub fn dtmc() -> (r: Self)
        ensures
            r matches ModelType::Dtmc(s) && s.spec_range() is None,
    {
        ModelType::Dtmc(S::empty())
    }

    /// A DTMC with the given span.
    pub fn dtmc_spanned(span: S) -> (r: Self)
        ensures
            r == ModelType::Dtmc(span),
    {
        ModelType::Dtmc(span)
    }

    /// A CTMC with an empty span.
    pub fn ctmc() -> (r: Self)
        ensures
            r matches ModelType::Ctmc(s) && s.spec_range() is None,
    {
        ModelType::Ctmc(S::empty())
    }

    /// A CTMC with the given span.
    pub fn ctmc_spanned(span: S) -> (r: Self)
        ensures
            r == ModelType::Ctmc(span),
    {
        ModelType::Ctmc(span)
    }

    /// An MDP with an empty span.
    pub fn mdp() -> (r: Self)
        ensures
            r matches ModelType::Mdp(s) && s.spec_range() is None,
    {
        ModelType::Mdp(S::empty())
    }

    /// An MDP with the given span.
    pub fn mdp_spanned(span: S) -> (r: Self)
        ensures
            r == ModelType::Mdp(span),
    {
        ModelType::Mdp(span)
    }

    /// Returns the span of the model type.
    pub fn span(&self) -> (r: &S)
        ensures
            *r == model_type_span(*self),
    {
        match self {
            ModelType::Dtmc(s) => s,
            ModelType::Ctmc(s) => s,
            ModelType::Mdp(s) => s,
        }
    }

    /// Returns a copy of the model type.
    pub fn duplicate_type(&self) -> (r: Self)
        ensures
            r == *self,
    {
        match self {
            ModelType::Dtmc(s) => ModelType::Dtmc(s.duplicate()),
            ModelType::Ctmc(s) => ModelType::Ctmc(s.duplicate()),
            ModelType::Mdp(s) => ModelType::Mdp(s.duplicate()),
        }
    }

    /// Returns the span of the model type.
    pub fn get_span(&self) -> (r: &S)
        ensures
            *r == model_type_span(*self),
    {
        self.span()
    }

    /// Maps the span of the model type with `map`.
    pub fn map_span<S2: Span, F: Fn(S) -> S2>(self, map: &F) -> (r: ModelType<S2>)
        requires
            forall|s: S| #[trigger] call_requires(*map, (s,)),
        ensures
            model_type_span_mapped(self, r, *map),
    {
        match self {
            ModelType::Dtmc(span) => ModelType::Dtmc(map(span)),
            ModelType::Ctmc(span) => ModelType::Ctmc(map(span)),
            ModelType::Mdp(span) => ModelType::Mdp(map(span)),
        }
    }
}

/// A PRISM model.
///
/// `V` is how expressions refer to variables (by [`Identifier`] or by
/// [`VariableReference`](crate::VariableReference)), `S` the span type, `E` the expression type
/// and `A` how actions are named.
#[derive(Debug)]
pub struct Model<V, S: Span, E, A> {
    /// The type of model.
    pub model_type: ModelType<S>,
    /// The variables and constants of the model, including local variables.
    pub variable_manager: VariableManager<S, E>,
    /// The formulas of the model.
    pub formulas: FormulaManager<S, E>,
    /// The modules of the model.
    pub modules: ModuleManager<V, S, E, A>,
    /// The renamed modules, `module M2 = M1 [ x=y, y=x ] endmodule`.
    pub renamed_modules: Vec<RenamedModule<S>>,
    /// The initial states constraint, if the model has one.
    pub init_constraint: Option<E>,
    /// The labels of the model.
    pub labels: LabelManager<S, E>,
    /// The reward structures of the model.
    pub rewards: RewardsManager<S, E, A>,
    /// The span of the entire model.
    pub span: S,
}

impl<V, S: Span, E, A> Model<V, S, E, A> {
    /// Constructs an empty model of the given type, with an empty span.
    pub fn new(model_type: ModelType<S>) -> (r: Self)
        ensures
            r.model_type == model_type,
            r.variable_manager.variables@.len() == 0,
            r.formulas.formulas@.len() == 0,
            r.modules.modules@.len() == 0,
            r.renamed_modules@.len() == 0,
            r.init_constraint is None,
            r.labels.labels@.len() == 0,
            r.rewards.rewards@.len() == 0,
            r.span.spec_range() is None,
    {
        Self::new_spanned(model_type, S::empty())
    }

    /// Constructs an empty model of the given type, with the given span.
    pub fn new_spanned(model_type: ModelType<S>, span: S) -> (r: Self)
        ensures
            r.model_type == model_type,
            r.variable_manager.variables@.len() == 0,
            r.formulas.formulas@.len() == 0,
            r.modules.modules@.len() == 0,
            r.renamed_modules@.len() == 0,
            r.init_constraint is None,
            r.labels.labels@.len() == 0,
            r.rewards.rewards@.len() == 0,
            r.span == span,
    {
        Model {
            model_type,
            variable_manager: VariableManager::new(),
            formulas: FormulaManager::new(),
            modules: ModuleManager::new(),
            renamed_modules: Vec::new(),
            init_constraint: None,
            labels: LabelManager::new(),
            rewards: RewardsManager::new(),
            span,
        }
    }

    /// Constructs a model from its components.
    pub fn from_components(
        model_type: ModelType<S>,
        variable_manager: VariableManager<S, E>,
        formulas: FormulaManager<S, E>,
        modules: ModuleManager<V, S, E, A>,
        renamed_modules: Vec<RenamedModule<S>>,
        init_constraint: Option<E>,
        labels: LabelManager<S, E>,
        rewards: RewardsManager<S, E, A>,
        span: S,
    ) -> (r: Self)
        ensures
            r == (Model {
                model_type,
                variable_manager,
                formulas,
                modules,
                renamed_modules,
                init_constraint,
                labels,
                rewards,
                span,
            }),
    {
        Model {
            model_type,
            variable_manager,
            formulas,
            modules,
            renamed_modules,
            init_constraint,
            labels,
            rewards,
            span,
        }
    }
}

/// `b` is the model `a` with every span mapped by `f`.
pub open spec fn model_span_mapped<V, S: Span, S2: Span, A, F: Fn(S) -> S2>(
    a: Model<V, S, Expression<V, S>, A>,
    b: Model<V, S2, Expression<V, S2>, A>,
    f: F,
) -> bool {
    &&& model_type_span_mapped(a.model_type, b.model_type, f)
    &&& infos_span_mapped(a.variable_manager.variables@, b.variable_manager.variables@, f)
    &&& b.formulas.formulas@.len() == a.formulas.formulas@.len()
    &&& (forall|i: int|
        0 <= i < a.formulas.formulas@.len() ==> #[trigger] formula_span_mapped(
            a.formulas.formulas@[i],
            b.formulas.formulas@[i],
            f,
        ))
    &&& b.modules.modules@.len() == a.modules.modules@.len()
    &&& (forall|i: int|
        0 <= i < a.modules.modules@.len() ==> #[trigger] module_span_mapped(
            a.modules.modules@[i],
            b.modules.modules@[i],
            f,
        ))
    &&& b.renamed_modules@.len() == a.renamed_modules@.len()
    &&& (forall|i: int|
        0 <= i < a.renamed_modules@.len() ==> #[trigger] renamed_module_span_mapped(
            a.renamed_modules@[i],
            b.renamed_modules@[i],
            f,
        ))
    &&& (a.init_constraint is None <==> b.init_constraint is None)
    &&& (a.init_constraint matches Some(i) ==> mapped(
        i,
        b.init_constraint->0,
        span_map_node::<V, S, S2, F>(f),
    ))
    &&& b.labels.labels@.len() == a.labels.labels@.len()
    &&& (forall|i: int|
        0 <= i < a.labels.labels@.len() ==> #[trigger] label_span_mapped(
            a.labels.labels@[i],
            b.labels.labels@[i],
            f,
        ))
    &&& b.rewards.rewards@.len() == a.rewards.rewards@.len()
    &&& (forall|i: int|
        0 <= i < a.rewards.rewards@.len() ==> #[trigger] rewards_span_mapped(
            a.rewards.rewards@[i],
            b.rewards.rewards@[i],
            f,
        ))
    &&& call_ensures(f, (a.span,), b.span)
}

impl<V, S: Span, A> Model<V, S, Expression<V, S>, A> {
    /// Maps every span of the model with `map`.
    pub fn map_span<S2: Span, F: Fn(S) -> S2>(self, map: &F) -> (r: Model<
        V,
        S2,
        Expression<V, S2>,
        A,
    >)
        requires
            forall|s: S| #[trigger] call_requires(*map, (s,)),
        ensures
            model_span_mapped(self, r, *map),
    {
        let mut renamed_modules: Vec<RenamedModule<S2>> = Vec::new();
        let mut rest = self.renamed_modules;
        let ghost orig = rest@;
        assert(orig.skip(0) =~= orig);
        while rest.len() > 0
            invariant
                forall|s: S| #[trigger] call_requires(*map, (s,)),
                renamed_modules@.len() <= orig.len(),
                rest@ == orig.skip(renamed_modules@.len() as int),
                forall|j: int|
                    0 <= j < renamed_modules@.len() ==> #[trigger] renamed_module_span_mapped(
                        orig[j],
                        renamed_modules@[j],
                        *map,
                    ),
            decreases rest.len(),
        {
            let ghost k = renamed_modules@.len() as int;
            proof {
                assert(orig.skip(k).drop_first() =~= orig.skip(k + 1));
            }
            let m = rest.remove(0);
            renamed_modules.push(m.map_span(map));
        }
        let init_constraint = match self.init_constraint {
            Some(i) => Some(i.map_span(map)),
            None => None,
        };
        Model {
            model_type: self.model_type.map_span(map),
            variable_manager: self.variable_manager.map_span(map),
            formulas: self.formulas.map_span(map),
            modules: self.modules.map_span(map),
            renamed_modules,
            init_constraint,
            labels: self.labels.map_span(map),
            rewards: self.rewards.map_span(map),
            span: map(self.span),
        }
    }
}

} // verus!
