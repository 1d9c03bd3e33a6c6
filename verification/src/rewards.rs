use crate::expressions::{mapped, span_map_node, Expression};
use crate::identifier::{ident_span_mapped, Identifier};
use crate::names::{first_index_of, lemma_first_index_of};
use crate::spans::Span;
use vstd::prelude::*;

verus! {

/// The name of a reward structure as a value: its text, or `None` for an unnamed one.
pub open spec fn rewards_key<S: Span, E, A>(r: Rewards<S, E, A>) -> Option<Seq<char>> {
    match r.name {
        Some(n) => Some(n.name@),
        None => None,
    }
}

/// The names of a list of reward structures, in order.
pub open spec fn rewards_keys<S: Span, E, A>(rs: Seq<Rewards<S, E, A>>) -> Seq<Option<Seq<char>>> {
    rs.map_values(|r: Rewards<S, E, A>| rewards_key(r))
}

/// The reward structures of a model.
#[derive(Debug)]
pub struct RewardsManager<S: Span, E, A> {
    /// The reward structures, in order.
    pub rewards: Vec<Rewards<S, E, A>>,
}

/// Error produced when adding a reward structure whose name is already taken.
#[derive(Debug, PartialEq, Eq, Structural)]
pub enum AddRewardsError {
    /// A reward structure with the same name (or, for an unnamed one, another unnamed one)
    /// exists at `index`.
    RewardsExist {
        /// The index of the existing reward structure.
        index: usize,
    },
}

/// Two optional names are equal: both absent, or both present with the same text.
fn same_name<S: Span>(a: &Option<Identifier<S>>, b: &Option<Identifier<S>>) -> (r: bool)
    ensures
        r == (match (a, b) {
            (Some(x), Some(y)) => x.name@ == y.name@,
            (None, None) => true,
            _ => false,
        }),
{
    match (a, b) {
        (Some(x), Some(y)) => *x == *y,
        (None, None) => true,
        _ => false,
    }
}

impl<S: Span, E, A> RewardsManager<S, E, A> {
    /// Constructs an empty manager.
    pub fn new() -> (r: Self)
        ensures
            r.rewards@.len() == 0,
    {
        RewardsManager { rewards: Vec::new() }
    }

    /// Constructs a manager holding the given reward structures, as they are (names are not
    /// checked for duplicates).
    pub fn with_rewards(rewards: Vec<Rewards<S, E, A>>) -> (r: Self)
        ensures
            r.rewards@ == rewards@,
    {
        RewardsManager { rewards }
    }

    /// Returns the reward structure at `index`, or `None` if there is none.
    pub fn get(&self, index: usize) -> (r: Option<&Rewards<S, E, A>>)
        ensures
            r == if index < self.rewards@.len() {
                Some(&self.rewards@[index as int])
            } else {
                None::<&Rewards<S, E, A>>
            },
    {
        if index < self.rewards.len() {
            Some(&self.rewards[index])
        } else {
            None
        }
    }

    /// Adds a reward structure.
    ///
    /// If one with the same name exists (two unnamed ones count as equal), returns the index of
    /// the first such one and leaves the manager unchanged. Otherwise appends it.
    pub fn add(&mut self, rewards: Rewards<S, E, A>) -> (r: Result<(), AddRewardsError>)
        ensures
            match first_index_of(rewards_keys(old(self).rewards@), rewards_key(rewards)) {
                Some(i) => r == Err::<(), AddRewardsError>(AddRewardsError::RewardsExist { index: i as usize })
                    && final(self).rewards@ == old(self).rewards@,
                None => r == Ok::<(), AddRewardsError>(()) && final(self).rewards@ == old(self).rewards@.push(
                    rewards,
                ),
            },
    {
        let ghost keys = rewards_keys(self.rewards@);
        let mut index: usize = 0;
        while index < self.rewards.len()
            invariant
                keys == rewards_keys(self.rewards@),
                index <= self.rewards@.len(),
                forall|j: int| 0 <= j < index ==> keys[j] != rewards_key(rewards),
            decreases self.rewards.len() - index,
        {
            if same_name(&self.rewards[index].name, &rewards.name) {
                proof {
                    lemma_first_index_of(keys, rewards_key(rewards), index as int);
                }
                return Err(AddRewardsError::RewardsExist { index });
            }
            index = index + 1;
        }
        proof {
            lemma_first_index_of(keys, rewards_key(rewards), index as int);
        }
        self.rewards.push(rewards);
        Ok(())
    }
}

impl<V, S: Span, A> RewardsManager<S, Expression<V, S>, A> {
    /// Maps every span of every reward structure with `map`.
    pub fn map_span<S2: Span, F: Fn(S) -> S2>(self, map: &F) -> (r: RewardsManager<
        S2,
        Expression<V, S2>,
        A,
    >)
        requires
            forall|s: S| #[trigger] call_requires(*map, (s,)),
        ensures
            r.rewards@.len() == self.rewards@.len(),
            forall|i: int|
                0 <= i < self.rewards@.len() ==> #[trigger] rewards_span_mapped(
                    self.rewards@[i],
                    r.rewards@[i],
                    *map,
                ),
    {
        let mut out: Vec<Rewards<S2, Expression<V, S2>, A>> = Vec::new();
        let mut rest = self.rewards;
        let ghost orig = rest@;
        assert(orig.skip(0) =~= orig);
        while rest.len() > 0
            invariant
                forall|s: S| #[trigger] call_requires(*map, (s,)),
                out@.len() <= orig.len(),
                rest@ == orig.skip(out@.len() as int),
                forall|j: int| 0 <= j < out@.len() ==> #[trigger] rewards_span_mapped(orig[j], out@[j], *map),
            decreases rest.len(),
        {
            let ghost k = out@.len() as int;
            proof {
                assert(orig.skip(k).drop_first() =~= orig.skip(k + 1));
            }
            let x = rest.remove(0);
            out.push(x.map_span(map));
        }
        RewardsManager { rewards: out }
    }
}

/// A reward structure: `rewards "name" entries endrewards`.
#[derive(Debug)]
pub struct Rewards<S: Span, E, A> {
    /// The name of the reward structure, if it has one.
    pub name: Option<Identifier<S>>,
    /// The entries of the reward structure.
    pub entries: Vec<RewardsElement<S, E, A>>,
    /// The span of the reward structure.
    pub span: S,
}

impl<S: Span, E, A> Rewards<S, E, A> {
    /// Constructs a reward structure without entries, with an empty span.
    pub fn new(name: Option<Identifier<S>>) -> (r: Self)
        ensures
            r.name == name,
            r.entries@.len() == 0,
            r.span.spec_range() is None,
    {
        Self::new_spanned(name, S::empty())
    }

    /// Constructs a reward structure without entries, with the given span.
    pub fn new_spanned(name: Option<Identifier<S>>, span: S) -> (r: Self)
        ensures
            r.name == name,
            r.entries@.len() == 0,
            r.span == span,
    {
        Rewards { name, entries: Vec::new(), span }
    }

    /// Constructs a reward structure with the given entries, with an empty span.
    pub fn with_entries(name: Option<Identifier<S>>, entries: Vec<RewardsElement<S, E, A>>) -> (r: Self)
        ensures
            r.name == name,
            r.entries@ == entries@,
            r.span.spec_range() is None,
    {
        Self::with_entries_spanned(name, entries, S::empty())
    }

    /// Constructs a reward structure with the given entries and span.
    pub fn with_entries_spanned(
        name: Option<Identifier<S>>,
        entries: Vec<RewardsElement<S, E, A>>,
        span: S,
    ) -> (r: Self)
        ensures
            r.name == name,
            r.entries@ == entries@,
            r.span == span,
    {
        Rewards { name, entries, span }
    }

    /// Appends an entry.
    pub fn add(&mut self, entry: RewardsElement<S, E, A>)
        ensures
            final(self).entries@ == old(self).entries@.push(entry),
            final(self).name == old(self).name,
            final(self).span == old(self).span,
    {
        self.entries.push(entry);
    }
}

/// `b` is `a` with every span mapped by `f`; the target is kept.
pub open spec fn element_span_mapped<V, S: Span, S2: Span, A, F: Fn(S) -> S2>(
    a: RewardsElement<S, Expression<V, S>, A>,
    b: RewardsElement<S2, Expression<V, S2>, A>,
    f: F,
) -> bool {
    &&& mapped(a.condition, b.condition, span_map_node::<V, S, S2, F>(f))
    &&& mapped(a.value, b.value, span_map_node::<V, S, S2, F>(f))
    &&& b.target == a.target
    &&& call_ensures(f, (a.span,), b.span)
}

/// `b` is `a` with every span mapped by `f`.
pub open spec fn rewards_span_mapped<V, S: Span, S2: Span, A, F: Fn(S) -> S2>(
    a: Rewards<S, Expression<V, S>, A>,
    b: Rewards<S2, Expression<V, S2>, A>,
    f: F,
) -> bool {
    &&& (a.name is None <==> b.name is None)
    &&& (a.name matches Some(n) ==> ident_span_mapped(n, b.name->0, f))
    &&& b.entries@.len() == a.entries@.len()
    &&& forall|i: int|
        0 <= i < a.entries@.len() ==> #[trigger] element_span_mapped(a.entries@[i], b.entries@[i], f)
    &&& call_ensures(f, (a.span,), b.span)
}

impl<V, S: Span, A> Rewards<S, Expression<V, S>, A> {
    /// Maps every span of this reward structure with `map`.
    pub fn map_span<S2: Span, F: Fn(S) -> S2>(self, map: &F) -> (r: Rewards<S2, Expression<V, S2>, A>)
        requires
            forall|s: S| #[trigger] call_requires(*map, (s,)),
        ensures
            rewards_span_mapped(self, r, *map),
    {
        let mut out: Vec<RewardsElement<S2, Expression<V, S2>, A>> = Vec::new();
        let mut rest = self.entries;
        let ghost orig = rest@;
        assert(orig.skip(0) =~= orig);
        while rest.len() > 0
            invariant
                forall|s: S| #[trigger] call_requires(*map, (s,)),
                out@.len() <= orig.len(),
                rest@ == orig.skip(out@.len() as int),
                forall|j: int| 0 <= j < out@.len() ==> #[trigger] element_span_mapped(orig[j], out@[j], *map),
            decreases rest.len(),
        {
            let ghost k = out@.len() as int;
            proof {
                assert(orig.skip(k).drop_first() =~= orig.skip(k + 1));
            }
            let x = rest.remove(0);
            out.push(x.map_span(map));
        }
        let name = match self.name {
            Some(n) => Some(n.map_span(map)),
            None => None,
        };
        Rewards { name, entries: out, span: map(self.span) }
    }
}

/// What a reward entry is attached to: states, or transitions (of an action, or unnamed ones).
#[derive(Debug, PartialEq, Eq, Structural)]
pub enum RewardsTarget<A> {
    /// A state reward.
    State,
    /// A transition reward for the given action, or for unnamed actions if `None`.
    Action(Option<A>),
}

/// An entry of a reward structure: `[target] condition : value;`.
#[derive(Debug)]
pub struct RewardsElement<S: Span, E, A> {
    /// The condition under which the reward is given.
    pub condition: E,
    /// The reward.
    pub value: E,
    /// What the reward is attached to.
    pub target: RewardsTarget<A>,
    /// The span of the entry.
    pub span: S,
}

impl<S: Span, E, A> RewardsElement<S, E, A> {
    /// Constructs a state reward entry with an empty span.
    pub fn new(condition: E, value: E) -> (r: Self)
        ensures
            r.condition == condition,
            r.value == value,
            r.target == RewardsTarget::<A>::State,
            r.span.spec_range() is None,
    {
        Self::new_spanned(condition, value, S::empty())
    }

    /// Constructs a state reward entry with the given span.
    pub fn new_spanned(condition: E, value: E, span: S) -> (r: Self)
        ensures
            r == (RewardsElement { condition, value, target: RewardsTarget::<A>::State, span }),
    {
        RewardsElement { condition, value, target: RewardsTarget::State, span }
    }

    /// Constructs a transition reward entry for `action`, with an empty span.
    pub fn with_action(condition: E, value: E, action: Option<A>) -> (r: Self)
        ensures
            r.condition == condition,
            r.value == value,
            r.target == RewardsTarget::<A>::Action(action),
            r.span.spec_range() is None,
    {
        Self::with_action_spanned(condition, value, action, S::empty())
    }

    /// Constructs a transition reward entry for `action`, with the given span.
    pub fn with_action_spanned(condition: E, value: E, action: Option<A>, span: S) -> (r: Self)
        ensures
            r == (RewardsElement { condition, value, target: RewardsTarget::<A>::Action(action), span }),
    {
        RewardsElement { condition, value, target: RewardsTarget::Action(action), span }
    }

    /// Constructs an entry with the given target and an empty span.
    pub fn with_target(condition: E, value: E, target: RewardsTarget<A>) -> (r: Self)
        ensures
            r.condition == condition,
            r.value == value,
            r.target == target,
            r.span.spec_range() is None,
    {
        Self::with_target_spanned(condition, value, target, S::empty())
    }

    /// Constructs an entry with the given target and span.
    pub fn with_target_spanned(condition: E, value: E, target: RewardsTarget<A>, span: S) -> (r: Self)
        ensures
            r == (RewardsElement { condition, value, target, span }),
    {
        RewardsElement { condition, value, target, span }
    }
}

impl<V, S: Span, A> RewardsElement<S, Expression<V, S>, A> {
    /// Maps every span of this entry with `map`; the target is kept.
    pub fn map_span<S2: Span, F: Fn(S) -> S2>(self, map: &F) -> (r: RewardsElement<
        S2,
        Expression<V, S2>,
        A,
    >)
        requires
            forall|s: S| #[trigger] call_requires(*map, (s,)),
        ensures
            element_span_mapped(self, r, *map),
    {
        RewardsElement {
            condition: self.condition.map_span(map),
            value: self.value.map_span(map),
            target: self.target,
            span: map(self.span),
        }
    }
}

} // verus!
