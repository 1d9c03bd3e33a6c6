//! Queries (properties) about a model: probabilities, rewards and times to be computed or
//! bounded, over state formulas and path formulas whose atoms are expressions.
use crate::model_maps::calls;
use vstd::prelude::*;

verus! {

/// Whether a value is to be minimised or maximised over the non-determinism of the model.
#[derive(Debug, PartialEq, Eq, Clone, Copy)]
pub enum NonDeterminismKind {
    /// The smallest value over all resolutions of the non-determinism.
    Minimise,
    /// The largest value over all resolutions of the non-determinism.
    Maximise,
}

/// A comparison of a bound.
#[derive(Debug, PartialEq, Eq, Clone, Copy)]
pub enum BoundOperator {
    /// `<`
    LessThan,
    /// `<=`
    LessOrEqual,
    /// `>`
    GreaterThan,
    /// `>=`
    GreaterOrEqual,
}

/// A bound `op value`, such as `>= 0.5`.
#[derive(Debug, PartialEq)]
pub struct Bound<E> {
    /// The comparison.
    pub operator: BoundOperator,
    /// The value compared with.
    pub value: E,
}

/// A formula that holds or not in a state.
#[derive(Debug, PartialEq)]
pub enum StateFormula<E> {
    /// An expression over the variables of the state.
    Expression(E),
    /// `P bound [ path ]`: the probability of the path formula meets the bound.
    ProbabilityBound {
        /// Minimised, maximised or neither.
        non_determinism: Option<NonDeterminismKind>,
        /// The bound.
        bound: Bound<E>,
        /// The path formula.
        path: Box<PathFormula<E>>,
    },
    /// `LRA bound path`: the long-run average of the path formula meets the bound.
    LongRunAverage {
        /// Minimised, maximised or neither.
        non_determinism: Option<NonDeterminismKind>,
        /// The bound.
        bound: Bound<E>,
        /// The path formula.
        path: Box<PathFormula<E>>,
    },
}

/// A formula that holds or not of a path.
#[derive(Debug, PartialEq)]
pub enum PathFormula<E> {
    /// `before U after`.
    Until {
        /// What holds until `after` holds.
        before: Box<StateFormula<E>>,
        /// What eventually holds.
        after: Box<StateFormula<E>>,
    },
    /// `F condition`.
    Eventually {
        /// What eventually holds.
        condition: Box<StateFormula<E>>,
    },
    /// `before U bound after`.
    BoundedUntil {
        /// What holds until `after` holds.
        before: Box<StateFormula<E>>,
        /// What eventually holds, within the bound.
        after: Box<StateFormula<E>>,
        /// The bound on the steps.
        bound: Bound<E>,
    },
    /// `F bound condition`.
    BoundedEventually {
        /// What eventually holds, within the bound.
        condition: Box<StateFormula<E>>,
        /// The bound on the steps.
        bound: Bound<E>,
    },
    /// `G condition`.
    Generally {
        /// What always holds.
        condition: Box<StateFormula<E>>,
    },
}

/// What a reward query accumulates.
#[derive(Debug, PartialEq)]
pub enum RewardFormula<E> {
    /// `I=k`: the reward at step `k`.
    Instantaneous {
        /// The step.
        k: E,
    },
    /// `C<=k`: the reward accumulated up to step `k`.
    Cumulative {
        /// The step.
        k: E,
    },
    /// `F states`: the reward accumulated until the states are reached.
    Finally {
        /// The states to be reached.
        states: StateFormula<E>,
    },
    /// `LRA`: the long-run average reward.
    LongRunAverage,
}

/// A query about a model.
#[derive(Debug, PartialEq)]
pub enum Query<E> {
    /// `P=? [ path ]`, `Pmin=? [ path ]` or `Pmax=? [ path ]`.
    ProbabilityValue {
        /// Minimised, maximised or neither.
        non_determinism: Option<NonDeterminismKind>,
        /// The path formula.
        path: PathFormula<E>,
    },
    /// Whether a state formula holds.
    StateFormula(StateFormula<E>),
    /// `R{"name"} bound [ reward ]`.
    RewardBound {
        /// Minimised, maximised or neither.
        non_determinism: Option<NonDeterminismKind>,
        /// The reward structure, if one is named.
        name: Option<String>,
        /// The bound.
        bound: Bound<E>,
        /// What is accumulated.
        reward: RewardFormula<E>,
    },
    /// `R{"name"}=? [ reward ]`.
    RewardValue {
        /// Minimised, maximised or neither.
        non_determinism: Option<NonDeterminismKind>,
        /// The reward structure, if one is named.
        name: Option<String>,
        /// What is accumulated.
        reward: RewardFormula<E>,
    },
    /// `T bound [ reward ]`.
    TimeBound {
        /// Minimised, maximised or neither.
        non_determinism: Option<NonDeterminismKind>,
        /// The bound.
        bound: Bound<E>,
        /// What is accumulated.
        reward: RewardFormula<E>,
    },
    /// `T=? [ reward ]`.
    TimeValue {
        /// Minimised, maximised or neither.
        non_determinism: Option<NonDeterminismKind>,
        /// What is accumulated.
        reward: RewardFormula<E>,
    },
}

/// The expressions of a state formula, in the order in which they are written.
pub open spec fn state_exprs<E>(s: StateFormula<E>) -> Seq<E>
    decreases s,
{
    match s {
        StateFormula::Expression(e) => seq![e],
        StateFormula::ProbabilityBound { bound, path, .. } => seq![bound.value] + path_exprs(*path),
        StateFormula::LongRunAverage { bound, path, .. } => seq![bound.value] + path_exprs(*path),
    }
}

/// The expressions of a path formula, in the order in which they are written.
pub open spec fn path_exprs<E>(p: PathFormula<E>) -> Seq<E>
    decreases p,
{
    match p {
        PathFormula::Until { before, after } => state_exprs(*before) + state_exprs(*after),
        PathFormula::Eventually { condition } => state_exprs(*condition),
        PathFormula::BoundedUntil { before, after, bound } => state_exprs(*before) + seq![bound.value]
            + state_exprs(*after),
        PathFormula::BoundedEventually { condition, bound } => seq![bound.value] + state_exprs(*condition),
        PathFormula::Generally { condition } => state_exprs(*condition),
    }
}

/// The expressions of a reward formula, in the order in which they are written.
pub open spec fn reward_exprs<E>(r: RewardFormula<E>) -> Seq<E> {
    match r {
        RewardFormula::Instantaneous { k } => seq![k],
        RewardFormula::Cumulative { k } => seq![k],
        RewardFormula::Finally { states } => state_exprs(states),
        RewardFormula::LongRunAverage => seq![],
    }
}

/// The expressions of a query, in the order in which they are written.
pub open spec fn query_exprs<E>(q: Query<E>) -> Seq<E> {
    match q {
        Query::ProbabilityValue { path, .. } => path_exprs(path),
        Query::StateFormula(s) => state_exprs(s),
        Query::RewardBound { bound, reward, .. } => seq![bound.value] + reward_exprs(reward),
        Query::RewardValue { reward, .. } => reward_exprs(reward),
        Query::TimeBound { bound, reward, .. } => seq![bound.value] + reward_exprs(reward),
        Query::TimeValue { reward, .. } => reward_exprs(reward),
    }
}

/// `b` is the bound `a` with its value related by `re`.
pub open spec fn bound_mapped<E, E2>(a: Bound<E>, b: Bound<E2>, re: spec_fn(E, E2) -> bool) -> bool {
    b.operator == a.operator && re(a.value, b.value)
}

/// `b` is the state formula `a` with every expression related by `re`.
pub open spec fn state_mapped<E, E2>(a: StateFormula<E>, b: StateFormula<E2>, re: spec_fn(E, E2) -> bool) -> bool
    decreases a,
{
    match (a, b) {
        (StateFormula::Expression(x), StateFormula::Expression(y)) => re(x, y),
        (
            StateFormula::ProbabilityBound { non_determinism: n, bound: x, path: p },
            StateFormula::ProbabilityBound { non_determinism: m, bound: y, path: q },
        ) => n == m && bound_mapped(x, y, re) && path_mapped(*p, *q, re),
        (
            StateFormula::LongRunAverage { non_determinism: n, bound: x, path: p },
            StateFormula::LongRunAverage { non_determinism: m, bound: y, path: q },
        ) => n == m && bound_mapped(x, y, re) && path_mapped(*p, *q, re),
        _ => false,
    }
}

/// `b` is the path formula `a` with every expression related by `re`.
pub open spec fn path_mapped<E, E2>(a: PathFormula<E>, b: PathFormula<E2>, re: spec_fn(E, E2) -> bool) -> bool
    decreases a,
{
    match (a, b) {
        (PathFormula::Until { before: x1, after: x2 }, PathFormula::Until { before: y1, after: y2 }) => state_mapped(
            *x1,
            *y1,
            re,
        ) && state_mapped(*x2, *y2, re),
        (PathFormula::Eventually { condition: x }, PathFormula::Eventually { condition: y }) => state_mapped(
            *x,
            *y,
            re,
        ),
        (
            PathFormula::BoundedUntil { before: x1, after: x2, bound: x3 },
            PathFormula::BoundedUntil { before: y1, after: y2, bound: y3 },
        ) => state_mapped(*x1, *y1, re) && state_mapped(*x2, *y2, re) && bound_mapped(x3, y3, re),
        (
            PathFormula::BoundedEventually { condition: x, bound: xb },
            PathFormula::BoundedEventually { condition: y, bound: yb },
        ) => state_mapped(*x, *y, re) && bound_mapped(xb, yb, re),
        (PathFormula::Generally { condition: x }, PathFormula::Generally { condition: y }) => state_mapped(
            *x,
            *y,
            re,
        ),
        _ => false,
    }
}

/// `b` is the reward formula `a` with every expression related by `re`.
pub open spec fn reward_mapped<E, E2>(a: RewardFormula<E>, b: RewardFormula<E2>, re: spec_fn(E, E2) -> bool) -> bool {
    match (a, b) {
        (RewardFormula::Instantaneous { k: x }, RewardFormula::Instantaneous { k: y }) => re(x, y),
        (RewardFormula::Cumulative { k: x }, RewardFormula::Cumulative { k: y }) => re(x, y),
        (RewardFormula::Finally { states: x }, RewardFormula::Finally { states: y }) => state_mapped(x, y, re),
        (RewardFormula::LongRunAverage, RewardFormula::LongRunAverage) => true,
        _ => false,
    }
}

/// `b` is the query `a` with every expression related by `re`; everything else is kept.
pub open spec fn query_mapped<E, E2>(a: Query<E>, b: Query<E2>, re: spec_fn(E, E2) -> bool) -> bool {
    match (a, b) {
        (
            Query::ProbabilityValue { non_determinism: n, path: p },
            Query::ProbabilityValue { non_determinism: m, path: q },
        ) => n == m && path_mapped(p, q, re),
        (Query::StateFormula(x), Query::StateFormula(y)) => state_mapped(x, y, re),
        (
            Query::RewardBound { non_determinism: n, name: a1, bound: x, reward: r },
            Query::RewardBound { non_determinism: m, name: b1, bound: y, reward: s },
        ) => n == m && a1 == b1 && bound_mapped(x, y, re) && reward_mapped(r, s, re),
        (
            Query::RewardValue { non_determinism: n, name: a1, reward: r },
            Query::RewardValue { non_determinism: m, name: b1, reward: s },
        ) => n == m && a1 == b1 && reward_mapped(r, s, re),
        (
            Query::TimeBound { non_determinism: n, bound: x, reward: r },
            Query::TimeBound { non_determinism: m, bound: y, reward: s },
        ) => n == m && bound_mapped(x, y, re) && reward_mapped(r, s, re),
        (
            Query::TimeValue { non_determinism: n, reward: r },
            Query::TimeValue { non_determinism: m, reward: s },
        ) => n == m && reward_mapped(r, s, re),
        _ => false,
    }
}

impl<E> Bound<E> {
    /// Applies `f` to the value of the bound.
    pub fn map_expressions_into<E2, F: Fn(E) -> E2>(self, f: &F) -> (r: Bound<E2>)
        requires
            forall|e: E| #[trigger] call_requires(*f, (e,)),
        ensures
            bound_mapped(self, r, calls(*f)),
    {
        Bound { operator: self.operator, value: f(self.value) }
    }
}

impl<E> StateFormula<E> {
    /// Applies `f` to every expression of the formula.
    pub fn map_expressions_into<E2, F: Fn(E) -> E2>(self, f: &F) -> (r: StateFormula<E2>)
        requires
            forall|e: E| #[trigger] call_requires(*f, (e,)),
        ensures
            state_mapped(self, r, calls(*f)),
        decreases self,
    {
        match self {
            StateFormula::Expression(e) => StateFormula::Expression(f(e)),
            StateFormula::ProbabilityBound { non_determinism, bound, path } => StateFormula::ProbabilityBound {
                non_determinism,
                bound: bound.map_expressions_into(f),
                path: Box::new((*path).map_expressions_into(f)),
            },
            StateFormula::LongRunAverage { non_determinism, bound, path } => StateFormula::LongRunAverage {
                non_determinism,
                bound: bound.map_expressions_into(f),
                path: Box::new((*path).map_expressions_into(f)),
            },
        }
    }
}

impl<E> PathFormula<E> {
    /// Applies `f` to every expression of the formula.
    pub fn map_expressions_into<E2, F: Fn(E) -> E2>(self, f: &F) -> (r: PathFormula<E2>)
        requires
            forall|e: E| #[trigger] call_requires(*f, (e,)),
        ensures
            path_mapped(self, r, calls(*f)),
        decreases self,
    {
        match self {
            PathFormula::Until { before, after } => PathFormula::Until {
                before: Box::new((*before).map_expressions_into(f)),
                after: Box::new((*after).map_expressions_into(f)),
            },
            PathFormula::Eventually { condition } => PathFormula::Eventually {
                condition: Box::new((*condition).map_expressions_into(f)),
            },
            PathFormula::BoundedUntil { before, after, bound } => PathFormula::BoundedUntil {
                before: Box::new((*before).map_expressions_into(f)),
                after: Box::new((*after).map_expressions_into(f)),
                bound: bound.map_expressions_into(f),
            },
            PathFormula::BoundedEventually { condition, bound } => PathFormula::BoundedEventually {
                condition: Box::new((*condition).map_expressions_into(f)),
                bound: bound.map_expressions_into(f),
            },
            PathFormula::Generally { condition } => PathFormula::Generally {
                condition: Box::new((*condition).map_expressions_into(f)),
            },
        }
    }
}

impl<E> RewardFormula<E> {
    /// Applies `f` to every expression of the formula.
    pub fn map_expressions_into<E2, F: Fn(E) -> E2>(self, f: &F) -> (r: RewardFormula<E2>)
        requires
            forall|e: E| #[trigger] call_requires(*f, (e,)),
        ensures
            reward_mapped(self, r, calls(*f)),
    {
        match self {
            RewardFormula::Instantaneous { k } => RewardFormula::Instantaneous { k: f(k) },
            RewardFormula::Cumulative { k } => RewardFormula::Cumulative { k: f(k) },
            RewardFormula::Finally { states } => RewardFormula::Finally { states: states.map_expressions_into(f) },
            RewardFormula::LongRunAverage => RewardFormula::LongRunAverage,
        }
    }
}

impl<E> Query<E> {
    /// Applies `f` to every expression of the query.
    pub fn map_expressions_into<E2, F: Fn(E) -> E2>(self, f: &F) -> (r: Query<E2>)
        requires
            forall|e: E| #[trigger] call_requires(*f, (e,)),
        ensures
            query_mapped(self, r, calls(*f)),
    {
        match self {
            Query::ProbabilityValue { non_determinism, path } => Query::ProbabilityValue {
                non_determinism,
                path: path.map_expressions_into(f),
            },
            Query::StateFormula(s) => Query::StateFormula(s.map_expressions_into(f)),
            Query::RewardBound { non_determinism, name, bound, reward } => Query::RewardBound {
                non_determinism,
                name,
                bound: bound.map_expressions_into(f),
                reward: reward.map_expressions_into(f),
            },
            Query::RewardValue { non_determinism, name, reward } => Query::RewardValue {
                non_determinism,
                name,
                reward: reward.map_expressions_into(f),
            },
            Query::TimeBound { non_determinism, bound, reward } => Query::TimeBound {
                non_determinism,
                bound: bound.map_expressions_into(f),
                reward: reward.map_expressions_into(f),
            },
            Query::TimeValue { non_determinism, reward } => Query::TimeValue {
                non_determinism,
                reward: reward.map_expressions_into(f),
            },
        }
    }
}

} // verus!
