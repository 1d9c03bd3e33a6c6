use crate::identifier::{ident_span_mapped, Identifier};
use crate::names::{first_index_of, lemma_first_index_of};
use crate::spans::Span;
use vstd::prelude::*;

verus! {

/// The names of a list of actions, in order.
pub open spec fn action_names<S: Span>(actions: Seq<Action<S>>) -> Seq<Seq<char>> {
    actions.map_values(|a: Action<S>| a.name.name@)
}

/// A collection of actions with distinct names. Its view is the list of actions, in the order
/// in which they were added.
pub struct ActionManager<S: Span> {
    actions: Vec<Action<S>>,
}

impl<S: Span> View for ActionManager<S> {
    type V = Seq<Action<S>>;

    closed spec fn view(&self) -> Seq<Action<S>> {
        self.actions@
    }
}

impl<S: Span> ActionManager<S> {
    /// Constructs an empty action manager.
    pub fn new() -> (r: Self)
        ensures
            r@.len() == 0,
    {
        ActionManager { actions: Vec::new() }
    }

    /// Adds an action with the given name.
    ///
    /// If an action with the same name exists, returns [`AddActionError::ActionExists`] with its
    /// reference and leaves the manager unchanged; otherwise appends the action and returns its
    /// reference.
    pub fn add_action(&mut self, name: Identifier<S>) -> (r: Result<ActionReference, AddActionError>)
        ensures
            match first_index_of(action_names(old(self)@), name.name@) {
                Some(i) => r is Err && r->Err_0->reference@ == i && final(self)@ == old(self)@,
                None => r is Ok && r->Ok_0@ == old(self)@.len() && final(self)@ == old(self)@.push(
                    Action { name },
                ),
            },
    {
        match self.get_reference(&name) {
            Some(existing_action) => Err(AddActionError::ActionExists { reference: existing_action }),
            None => {
                let index = ActionReference::new(self.actions.len());
                self.actions.push(Action::new(name));
                Ok(index)
            },
        }
    }

    /// Returns the reference of the action named like `name`, or `None`.
    pub fn get_reference(&self, name: &Identifier<S>) -> (r: Option<ActionReference>)
        ensures
            match first_index_of(action_names(self@), name.name@) {
                Some(i) => r is Some && r->0@ == i,
                None => r is None,
            },
    {
        let ghost names = action_names(self@);
        let mut index: usize = 0;
        while index < self.actions.len()
            invariant
                names == action_names(self@),
                index <= self@.len(),
                forall|j: int| 0 <= j < index ==> names[j] != name.name@,
            decreases self.actions.len() - index,
        {
            if self.actions[index].name == *name {
                proof {
                    lemma_first_index_of(names, name.name@, index as int);
                }
                return Some(ActionReference::new(index));
            }
            index = index + 1;
        }
        proof {
            lemma_first_index_of(names, name.name@, index as int);
        }
        None
    }

    /// Returns the action with the given reference, or `None` if there is none.
    pub fn get(&self, reference: ActionReference) -> (r: Option<&Action<S>>)
        ensures
            r == if reference@ < self@.len() {
                Some(&self@[reference@ as int])
            } else {
                None::<&Action<S>>
            },
    {
        if reference.index < self.actions.len() {
            Some(&self.actions[reference.index])
        } else {
            None
        }
    }
}

/// Error produced when adding an action whose name is already taken.
pub enum AddActionError {
    /// An action of the same name exists.
    ActionExists {
        /// The reference of the existing action.
        reference: ActionReference,
    },
}

/// An action of a model.
pub struct Action<S: Span> {
    /// The name of the action.
    pub name: Identifier<S>,
}

impl<S: Span> Action<S> {
    fn new(name: Identifier<S>) -> (r: Self)
        ensures
            r.name == name,
    {
        Action { name }
    }

    /// Maps the span of the action's name with `map`.
    pub fn map_span<S2: Span, F: Fn(S) -> S2>(self, map: &F) -> (r: Action<S2>)
        requires
            forall|s: S| #[trigger] call_requires(*map, (s,)),
        ensures
            ident_span_mapped(self.name, r.name, *map),
    {
        Action::new(self.name.map_span(map))
    }
}

/// A reference to an action of an [`ActionManager`]; its view is the action's index.
#[derive(Copy, Clone, PartialEq, Eq, Structural)]
pub struct ActionReference {
    index: usize,
}

impl View for ActionReference {
    type V = usize;

    closed spec fn view(&self) -> usize {
        self.index
    }
}

impl ActionReference {
    fn new(index: usize) -> (r: Self)
        ensures
            r@ == index,
    {
        ActionReference { index }
    }
}

} // verus!
