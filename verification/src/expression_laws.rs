use crate::expressions::{children, copied, copy_node, lemma_children_decrease, mapped, rename_node, Expression};
use crate::identifier::Identifier;
use crate::module::{spec_renaming, RenameRule};
use crate::spans::Span;
use vstd::prelude::*;

verus! {

/// A node relation that holds wherever a stronger one holds relates the same trees.
pub proof fn lemma_mapped_weaken<V, S: Span, V2, S2: Span>(
    e: Expression<V, S>,
    r: Expression<V2, S2>,
    node: spec_fn(Expression<V, S>, Expression<V2, S2>) -> bool,
    weaker: spec_fn(Expression<V, S>, Expression<V2, S2>) -> bool,
)
    requires
        mapped(e, r, node),
        forall|a: Expression<V, S>, b: Expression<V2, S2>| #[trigger] node(a, b) ==> weaker(a, b),
    ensures
        mapped(e, r, weaker),
    decreases e,
{
    assert forall|i: int| 0 <= i < children(e).len() implies mapped(#[trigger] children(e)[i], children(r)[i], weaker) by {
        lemma_children_decrease(e, i);
        lemma_mapped_weaken(children(e)[i], children(r)[i], node, weaker);
    }
}

/// Without rules, renaming keeps every name.
pub proof fn law_renaming_without_rules_keeps_name<S: Span>(name: Identifier<S>)
    ensures
        spec_renaming(Seq::<RenameRule<S>>::empty(), name) == name,
{
}

/// Renaming an expression without rules copies it.
pub proof fn law_renaming_without_rules_copies<S: Span>(
    e: Expression<Identifier<S>, S>,
    r: Expression<Identifier<S>, S>,
)
    requires
        mapped(e, r, rename_node(Seq::<RenameRule<S>>::empty())),
    ensures
        copied(e, r),
{
    let rules = Seq::<RenameRule<S>>::empty();
    assert forall|a: Expression<Identifier<S>, S>, b: Expression<Identifier<S>, S>|
        #[trigger] rename_node(rules)(a, b) implies copy_node()(a, b) by {
        if a is VarOrConst {
            law_renaming_without_rules_keeps_name(a->VarOrConst_0);
        }
    }
    lemma_mapped_weaken(e, r, rename_node(rules), copy_node());
}

} // verus!
