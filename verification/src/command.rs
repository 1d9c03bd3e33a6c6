use crate::expressions::{mapped, rename_node, span_map_node, Expression};
use crate::identifier::Identifier;
use crate::module::{spec_renaming, RenameRule, RenameRules};
use crate::spans::Span;
use vstd::prelude::*;

verus! {

/// A command of a PRISM module: `[action] guard -> updates;`.
///
/// `action_span` is the span of the action (the square brackets and their content). A command
/// without updates stands for `true`, the update that keeps every variable.
#[derive(Debug)]
pub struct Command<V, S: Span, E, A> {
    /// The action label of the command, if any.
    pub action: Option<A>,
    /// The span of the action.
    pub action_span: S,
    /// The guard of the command.
    pub guard: E,
    /// The updates of the command, each with its probability or rate.
    pub updates: Vec<Update<V, S, E>>,
    /// The span of the whole command.
    pub span: S,
}

impl<V, S: Span, E, A> Command<V, S, E, A> {
    /// Constructs a command without updates, with empty spans.
    pub fn new(action: Option<A>, guard: E) -> (r: Self)
        ensures
            r.action == action,
            r.guard == guard,
            r.updates@.len() == 0,
            r.action_span.spec_range() is None,
            r.span.spec_range() is None,
    {
        Self::new_spanned(action, S::empty(), guard, S::empty())
    }

    /// Constructs a command without updates, with the given spans.
    pub fn new_spanned(action: Option<A>, action_span: S, guard: E, span: S) -> (r: Self)
        ensures
            r.action == action,
            r.action_span == action_span,
            r.guard == guard,
            r.updates@.len() == 0,
            r.span == span,
    {
        Command { action, action_span, guard, updates: Vec::new(), span }
    }

    /// Constructs a command with the given updates, with empty spans.
    pub fn with_updates(action: Option<A>, guard: E, updates: Vec<Update<V, S, E>>) -> (r: Self)
        ensures
            r.action == action,
            r.guard == guard,
            r.updates@ == updates@,
            r.action_span.spec_range() is None,
            r.span.spec_range() is None,
    {
        Self::with_updates_spanned(action, S::empty(), guard, updates, S::empty())
    }

    /// Constructs a command with the given updates and spans.
    pub fn with_updates_spanned(
        action: Option<A>,
        action_span: S,
        guard: E,
        updates: Vec<Update<V, S, E>>,
        span: S,
    ) -> (r: Self)
        ensures
            r.action == action,
            r.action_span == action_span,
            r.guard == guard,
            r.updates@ == updates@,
            r.span == span,
    {
        Command { action, action_span, guard, updates, span }
    }

    /// Appends an update.
    pub fn add_update(&mut self, update: Update<V, S, E>)
        ensures
            final(self).updates@ == old(self).updates@.push(update),
            final(self).action == old(self).action,
            final(self).action_span == old(self).action_span,
            final(self).guard == old(self).guard,
            final(self).span == old(self).span,
    {
        self.updates.push(update);
    }
}

/// An update of a command: `probability : (x'=e) & ...`.
#[derive(Debug)]
pub struct Update<V, S: Span, E> {
    /// The probability (or rate) of the update.
    pub probability: E,
    /// The assignments of the update; an update without assignments keeps every variable.
    pub assignments: Vec<Assignment<V, S, E>>,
    /// The span of the update.
    pub span: S,
}

impl<V, S: Span, E> Update<V, S, E> {
    /// Constructs an update without assignments, with an empty span.
    pub fn new(probability: E) -> (r: Self)
        ensures
            r.probability == probability,
            r.assignments@.len() == 0,
            r.span.spec_range() is None,
    {
        Self::new_spanned(probability, S::empty())
    }

    /// Constructs an update without assignments, with the given span.
    pub fn new_spanned(probability: E, span: S) -> (r: Self)
        ensures
            r.probability == probability,
            r.assignments@.len() == 0,
            r.span == span,
    {
        Update { probability, assignments: Vec::new(), span }
    }

    /// Constructs an update with the given assignments, with an empty span.
    pub fn with_assignments(probability: E, assignments: Vec<Assignment<V, S, E>>) -> (r: Self)
        ensures
            r.probability == probability,
            r.assignments@ == assignments@,
            r.span.spec_range() is None,
    {
        Self::with_assignments_spanned(probability, assignments, S::empty())
    }

    /// Constructs an update with the given assignments and span.
    pub fn with_assignments_spanned(
        probability: E,
        assignments: Vec<Assignment<V, S, E>>,
        span: S,
    ) -> (r: Self)
        ensures
            r.probability == probability,
            r.assignments@ == assignments@,
            r.span == span,
    {
        Update { probability, assignments, span }
    }

    /// Appends an assignment.
    pub fn add_assignment(&mut self, assignment: Assignment<V, S, E>)
        ensures
            final(self).assignments@ == old(self).assignments@.push(assignment),
            final(self).probability == old(self).probability,
            final(self).span == old(self).span,
    {
        self.assignments.push(assignment);
    }
}

/// An assignment `target' = value`.
#[derive(Debug)]
pub struct Assignment<V, S: Span, E> {
    /// The variable that is assigned.
    pub target: V,
    /// The new value.
    pub value: E,
    /// The span of the target.
    pub target_span: S,
    /// The span of the whole assignment.
    pub span: S,
}

impl<V, S: Span, E> Assignment<V, S, E> {
    /// Constructs an assignment with empty spans.
    pub fn new(target: V, value: E) -> (r: Self)
        ensures
            r.target == target,
            r.value == value,
            r.target_span.spec_range() is None,
            r.span.spec_range() is None,
    {
        Self::new_spanned(target, value, S::empty(), S::empty())
    }

    /// Constructs an assignment with the given spans.
    pub fn new_spanned(target: V, value: E, target_span: S, span: S) -> (r: Self)
        ensures
            r == (Assignment { target, value, target_span, span }),
    {
        Assignment { target, value, target_span, span }
    }
}

/// `b` is `a` with every span mapped by `f`.
pub open spec fn assignment_span_mapped<V, S: Span, S2: Span, F: Fn(S) -> S2>(
    a: Assignment<V, S, Expression<V, S>>,
    b: Assignment<V, S2, Expression<V, S2>>,
    f: F,
) -> bool {
    &&& b.target == a.target
    &&& mapped(a.value, b.value, span_map_node::<V, S, S2, F>(f))
    &&& call_ensures(f, (a.target_span,), b.target_span)
    &&& call_ensures(f, (a.span,), b.span)
}

/// `b` is `a` with every span mapped by `f`.
pub open spec fn update_span_mapped<V, S: Span, S2: Span, F: Fn(S) -> S2>(
    a: Update<V, S, Expression<V, S>>,
    b: Update<V, S2, Expression<V, S2>>,
    f: F,
) -> bool {
    &&& mapped(a.probability, b.probability, span_map_node::<V, S, S2, F>(f))
    &&& b.assignments@.len() == a.assignments@.len()
    &&& forall|i: int|
        0 <= i < a.assignments@.len() ==> #[trigger] assignment_span_mapped(
            a.assignments@[i],
            b.assignments@[i],
            f,
        )
    &&& call_ensures(f, (a.span,), b.span)
}

/// `b` is `a` with every span mapped by `f`; the action is kept.
pub open spec fn command_span_mapped<V, S: Span, S2: Span, A, F: Fn(S) -> S2>(
    a: Command<V, S, Expression<V, S>, A>,
    b: Command<V, S2, Expression<V, S2>, A>,
    f: F,
) -> bool {
    &&& b.action == a.action
    &&& call_ensures(f, (a.action_span,), b.action_span)
    &&& mapped(a.guard, b.guard, span_map_node::<V, S, S2, F>(f))
    &&& b.updates@.len() == a.updates@.len()
    &&& forall|i: int|
        0 <= i < a.updates@.len() ==> #[trigger] update_span_mapped(a.updates@[i], b.updates@[i], f)
    &&& call_ensures(f, (a.span,), b.span)
}

impl<V, S: Span> Assignment<V, S, Expression<V, S>> {
    /// Maps every span of this assignment with `map`.
    pub fn map_span<S2: Span, F: Fn(S) -> S2>(self, map: &F) -> (r: Assignment<
        V,
        S2,
        Expression<V, S2>,
    >)
        requires
            forall|s: S| #[trigger] call_requires(*map, (s,)),
        ensures
            assignment_span_mapped(self, r, *map),
    {
        Assignment {
            target: self.target,
            value: self.value.map_span(map),
            target_span: map(self.target_span),
            span: map(self.span),
        }
    }
}

impl<V, S: Span> Update<V, S, Expression<V, S>> {
    /// Maps every span of this update with `map`.
    pub fn map_span<S2: Span, F: Fn(S) -> S2>(self, map: &F) -> (r: Update<
        V,
        S2,
        Expression<V, S2>,
    >)
        requires
            forall|s: S| #[trigger] call_requires(*map, (s,)),
        ensures
            update_span_mapped(self, r, *map),
    {
        let mut update = Update::new_spanned(self.probability.map_span(map), map(self.span));
        let mut rest = self.assignments;
        let ghost orig = rest@;
        assert(orig.skip(0) =~= orig);
        while rest.len() > 0
            invariant
                forall|s: S| #[trigger] call_requires(*map, (s,)),
                update.assignments@.len() <= orig.len(),
                rest@ == orig.skip(update.assignments@.len() as int),
                forall|j: int|
                    0 <= j < update.assignments@.len() ==> #[trigger] assignment_span_mapped(
                        orig[j],
                        update.assignments@[j],
                        *map,
                    ),
                mapped(self.probability, update.probability, span_map_node::<V, S, S2, F>(*map)),
                call_ensures(*map, (self.span,), update.span),
            decreases rest.len(),
        {
            let ghost k = update.assignments@.len() as int;
            proof {
                assert(orig.skip(k).drop_first() =~= orig.skip(k + 1));
            }
            let a = rest.remove(0);
            update.assignments.push(a.map_span(map));
        }
        update
    }
}

impl<V, S: Span, A> Command<V, S, Expression<V, S>, A> {
    /// Maps every span of this command with `map`; the action is kept.
    pub fn map_span<S2: Span, F: Fn(S) -> S2>(self, map: &F) -> (r: Command<
        V,
        S2,
        Expression<V, S2>,
        A,
    >)
        requires
            forall|s: S| #[trigger] call_requires(*map, (s,)),
        ensures
            command_span_mapped(self, r, *map),
    {
        let mut updates: Vec<Update<V, S2, Expression<V, S2>>> = Vec::new();
        let mut rest = self.updates;
        let ghost orig = rest@;
        assert(orig.skip(0) =~= orig);
        while rest.len() > 0
            invariant
                forall|s: S| #[trigger] call_requires(*map, (s,)),
                updates@.len() <= orig.len(),
                rest@ == orig.skip(updates@.len() as int),
                forall|j: int|
                    0 <= j < updates@.len() ==> #[trigger] update_span_mapped(
                        orig[j],
                        updates@[j],
                        *map,
                    ),
            decreases rest.len(),
        {
            let ghost k = updates@.len() as int;
            proof {
                assert(orig.skip(k).drop_first() =~= orig.skip(k + 1));
            }
            let u = rest.remove(0);
            updates.push(u.map_span(map));
        }
        Command {
            action: self.action,
            action_span: map(self.action_span),
            guard: self.guard.map_span(map),
            updates,
            span: map(self.span),
        }
    }
}

/// `b` is `a` renamed by `rules`: the target and the variables of the value are renamed; spans
/// are kept.
pub open spec fn assignment_renamed<S: Span>(
    a: Assignment<Identifier<S>, S, Expression<Identifier<S>, S>>,
    b: Assignment<Identifier<S>, S, Expression<Identifier<S>, S>>,
    rules: Seq<RenameRule<S>>,
) -> bool {
    &&& b.target == spec_renaming(rules, a.target)
    &&& mapped(a.value, b.value, rename_node(rules))
    &&& b.target_span == a.target_span
    &&& b.span == a.span
}

/// `b` is `a` renamed by `rules`.
pub open spec fn update_renamed<S: Span>(
    a: Update<Identifier<S>, S, Expression<Identifier<S>, S>>,
    b: Update<Identifier<S>, S, Expression<Identifier<S>, S>>,
    rules: Seq<RenameRule<S>>,
) -> bool {
    &&& mapped(a.probability, b.probability, rename_node(rules))
    &&& b.assignments@.len() == a.assignments@.len()
    &&& forall|i: int|
        0 <= i < a.assignments@.len() ==> #[trigger] assignment_renamed(
            a.assignments@[i],
            b.assignments@[i],
            rules,
        )
    &&& b.span == a.span
}

/// `b` is `a` renamed by `rules`: the action, the guard and the updates are renamed; spans are
/// kept.
pub open spec fn command_renamed<S: Span>(
    a: Command<Identifier<S>, S, Expression<Identifier<S>, S>, Identifier<S>>,
    b: Command<Identifier<S>, S, Expression<Identifier<S>, S>, Identifier<S>>,
    rules: Seq<RenameRule<S>>,
) -> bool {
    &&& (a.action is None <==> b.action is None)
    &&& (a.action matches Some(x) ==> b.action == Some(spec_renaming(rules, x)))
    &&& b.action_span == a.action_span
    &&& mapped(a.guard, b.guard, rename_node(rules))
    &&& b.updates@.len() == a.updates@.len()
    &&& forall|i: int|
        0 <= i < a.updates@.len() ==> #[trigger] update_renamed(a.updates@[i], b.updates@[i], rules)
    &&& b.span == a.span
}

impl<S: Span> Assignment<Identifier<S>, S, Expression<Identifier<S>, S>> {
    /// Returns a copy of this assignment with the target and the variables of the value renamed
    /// according to `rename_rules`.
    pub fn renamed(&self, rename_rules: &RenameRules<S>) -> (r: Self)
        ensures
            assignment_renamed(*self, r, rename_rules.rules@),
    {
        Assignment {
            target: self.target.renamed(rename_rules),
            value: self.value.renamed(rename_rules),
            target_span: self.target_span.duplicate(),
            span: self.span.duplicate(),
        }
    }
}

impl<S: Span> Update<Identifier<S>, S, Expression<Identifier<S>, S>> {
    /// Returns a copy of this update with every variable renamed according to `rename_rules`.
    pub fn renamed(&self, rename_rules: &RenameRules<S>) -> (r: Self)
        ensures
            update_renamed(*self, r, rename_rules.rules@),
    {
        let mut assignments: Vec<Assignment<Identifier<S>, S, Expression<Identifier<S>, S>>> =
            Vec::new();
        let mut i: usize = 0;
        while i < self.assignments.len()
            invariant
                i <= self.assignments@.len(),
                assignments@.len() == i,
                forall|j: int|
                    0 <= j < i ==> #[trigger] assignment_renamed(
                        self.assignments@[j],
                        assignments@[j],
                        rename_rules.rules@,
                    ),
            decreases self.assignments.len() - i,
        {
            assignments.push(self.assignments[i].renamed(rename_rules));
            i = i + 1;
        }
        Update {
            probability: self.probability.renamed(rename_rules),
            assignments,
            span: self.span.duplicate(),
        }
    }
}

impl<S: Span> Command<Identifier<S>, S, Expression<Identifier<S>, S>, Identifier<S>> {
    /// Returns a copy of this command with the action, the guard and the updates renamed
    /// according to `rename_rules`.
    pub fn renamed(&self, rename_rules: &RenameRules<S>) -> (r: Self)
        ensures
            command_renamed(*self, r, rename_rules.rules@),
    {
        let mut updates: Vec<Update<Identifier<S>, S, Expression<Identifier<S>, S>>> = Vec::new();
        let mut i: usize = 0;
        while i < self.updates.len()
            invariant
                i <= self.updates@.len(),
                updates@.len() == i,
                forall|j: int|
                    0 <= j < i ==> #[trigger] update_renamed(
                        self.updates@[j],
                        updates@[j],
                        rename_rules.rules@,
                    ),
            decreases self.updates.len() - i,
        {
            updates.push(self.updates[i].renamed(rename_rules));
            i = i + 1;
        }
        let action = match &self.action {
            Some(a) => Some(a.renamed(rename_rules)),
            None => None,
        };
        Command {
            action,
            action_span: self.action_span.duplicate(),
            guard: self.guard.renamed(rename_rules),
            updates,
            span: self.span.duplicate(),
        }
    }
}

} // verus!
