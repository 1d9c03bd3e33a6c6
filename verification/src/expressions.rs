use crate::identifier::Identifier;
use crate::module::{spec_renaming, RenameRule, RenameRules};
use crate::spans::Span;
use vstd::prelude::*;

verus! {

/// A value that can be copied exactly.
pub trait Duplicate: Sized {
    /// Returns a copy of `self`.
    fn duplicate(&self) -> (r: Self)
        ensures
            r == *self,
    ;
}

impl<S: Span> Duplicate for Identifier<S> {
    fn duplicate(&self) -> (r: Self) {
        Identifier { name: self.name.clone(), span: self.span.duplicate() }
    }
}

/// An expression of the PRISM language.
///
/// `V` is how variables are referred to: by name ([`Identifier`]) or by reference
/// ([`VariableReference`](crate::VariableReference)). `S` is the [`Span`] type. Every expression
/// node carries its own span as its last field.
#[derive(Debug)]
pub enum Expression<V, S: Span> {
    /// An integer literal.
    Int(i64, S),
    /// A floating-point literal, stored as the bit pattern of an IEEE 754 binary64 value.
    Float(u64, S),
    /// A boolean literal.
    Bool(bool, S),
    /// A variable or constant.
    VarOrConst(V, S),
    /// A label, written `"name"` in PRISM.
    Label(V, S),
    /// A function call, e.g. `min(a, b)`.
    Function(Identifier<S>, Vec<Expression<V, S>>, S),
    /// The negated value `-a`.
    Minus(Box<Expression<V, S>>, S),
    /// The product `a*b`.
    Multiplication(Box<Expression<V, S>>, Box<Expression<V, S>>, S),
    /// The quotient `a/b`.
    Division(Box<Expression<V, S>>, Box<Expression<V, S>>, S),
    /// The sum `a+b`.
    Addition(Box<Expression<V, S>>, Box<Expression<V, S>>, S),
    /// The difference `a-b`.
    Subtraction(Box<Expression<V, S>>, Box<Expression<V, S>>, S),
    /// The comparison `a<b`.
    LessThan(Box<Expression<V, S>>, Box<Expression<V, S>>, S),
    /// The comparison `a<=b`.
    LessOrEqual(Box<Expression<V, S>>, Box<Expression<V, S>>, S),
    /// The comparison `a>b`.
    GreaterThan(Box<Expression<V, S>>, Box<Expression<V, S>>, S),
    /// The comparison `a>=b`.
    GreaterOrEqual(Box<Expression<V, S>>, Box<Expression<V, S>>, S),
    /// The comparison `a=b`.
    Equals(Box<Expression<V, S>>, Box<Expression<V, S>>, S),
    /// The comparison `a!=b`.
    NotEquals(Box<Expression<V, S>>, Box<Expression<V, S>>, S),
    /// The boolean negation `!a`.
    Negation(Box<Expression<V, S>>, S),
    /// The conjunction `a&b`.
    Conjunction(Box<Expression<V, S>>, Box<Expression<V, S>>, S),
    /// The disjunction `a|b`.
    Disjunction(Box<Expression<V, S>>, Box<Expression<V, S>>, S),
    /// The equivalence `a<=>b`.
    IfAndOnlyIf(Box<Expression<V, S>>, Box<Expression<V, S>>, S),
    /// The implication `a=>b`.
    Implies(Box<Expression<V, S>>, Box<Expression<V, S>>, S),
    /// The conditional `c ? a : b`.
    Ternary(Box<Expression<V, S>>, Box<Expression<V, S>>, Box<Expression<V, S>>, S),
}

/// The variant of an expression, as a number in declaration order.
pub open spec fn kind<V, S: Span>(e: Expression<V, S>) -> int {
    match e {
        Expression::Int(..) => 0,
        Expression::Float(..) => 1,
        Expression::Bool(..) => 2,
        Expression::VarOrConst(..) => 3,
        Expression::Label(..) => 4,
        Expression::Function(..) => 5,
        Expression::Minus(..) => 6,
        Expression::Multiplication(..) => 7,
        Expression::Division(..) => 8,
        Expression::Addition(..) => 9,
        Expression::Subtraction(..) => 10,
        Expression::LessThan(..) => 11,
        Expression::LessOrEqual(..) => 12,
        Expression::GreaterThan(..) => 13,
        Expression::GreaterOrEqual(..) => 14,
        Expression::Equals(..) => 15,
        Expression::NotEquals(..) => 16,
        Expression::Negation(..) => 17,
        Expression::Conjunction(..) => 18,
        Expression::Disjunction(..) => 19,
        Expression::IfAndOnlyIf(..) => 20,
        Expression::Implies(..) => 21,
        Expression::Ternary(..) => 22,
    }
}

/// The span of the outermost node of an expression.
pub open spec fn span_of<V, S: Span>(e: Expression<V, S>) -> S {
    match e {
        Expression::Int(x0, xs) => xs,
        Expression::Float(x0, xs) => xs,
        Expression::Bool(x0, xs) => xs,
        Expression::VarOrConst(x0, xs) => xs,
        Expression::Label(x0, xs) => xs,
        Expression::Function(x0, x1, xs) => xs,
        Expression::Minus(x0, xs) => xs,
        Expression::Multiplication(x0, x1, xs) => xs,
        Expression::Division(x0, x1, xs) => xs,
        Expression::Addition(x0, x1, xs) => xs,
        Expression::Subtraction(x0, x1, xs) => xs,
        Expression::LessThan(x0, x1, xs) => xs,
        Expression::LessOrEqual(x0, x1, xs) => xs,
        Expression::GreaterThan(x0, x1, xs) => xs,
        Expression::GreaterOrEqual(x0, x1, xs) => xs,
        Expression::Equals(x0, x1, xs) => xs,
        Expression::NotEquals(x0, x1, xs) => xs,
        Expression::Negation(x0, xs) => xs,
        Expression::Conjunction(x0, x1, xs) => xs,
        Expression::Disjunction(x0, x1, xs) => xs,
        Expression::IfAndOnlyIf(x0, x1, xs) => xs,
        Expression::Implies(x0, x1, xs) => xs,
        Expression::Ternary(x0, x1, x2, xs) => xs,
    }
}

/// The binding strength of the outermost operator; larger binds tighter.
pub open spec fn precedence<V, S: Span>(e: Expression<V, S>) -> usize {
    match e {
        Expression::Int(..) => 12,
        Expression::Float(..) => 12,
        Expression::Bool(..) => 12,
        Expression::VarOrConst(..) => 12,
        Expression::Label(..) => 12,
        Expression::Function(..) => 12,
        Expression::Minus(..) => 11,
        Expression::Multiplication(..) => 10,
        Expression::Division(..) => 10,
        Expression::Addition(..) => 9,
        Expression::Subtraction(..) => 9,
        Expression::LessThan(..) => 8,
        Expression::LessOrEqual(..) => 8,
        Expression::GreaterThan(..) => 8,
        Expression::GreaterOrEqual(..) => 8,
        Expression::Equals(..) => 7,
        Expression::NotEquals(..) => 7,
        Expression::Negation(..) => 6,
        Expression::Conjunction(..) => 5,
        Expression::Disjunction(..) => 4,
        Expression::IfAndOnlyIf(..) => 3,
        Expression::Implies(..) => 2,
        Expression::Ternary(..) => 1,
    }
}

/// The direct subexpressions of an expression, in evaluation order.
pub open spec fn children<V, S: Span>(e: Expression<V, S>) -> Seq<Expression<V, S>> {
    match e {
        Expression::Function(x0, x1, xs) => x1@,
        Expression::Minus(x0, xs) => seq![*x0],
        Expression::Multiplication(x0, x1, xs) => seq![*x0, *x1],
        Expression::Division(x0, x1, xs) => seq![*x0, *x1],
        Expression::Addition(x0, x1, xs) => seq![*x0, *x1],
        Expression::Subtraction(x0, x1, xs) => seq![*x0, *x1],
        Expression::LessThan(x0, x1, xs) => seq![*x0, *x1],
        Expression::LessOrEqual(x0, x1, xs) => seq![*x0, *x1],
        Expression::GreaterThan(x0, x1, xs) => seq![*x0, *x1],
        Expression::GreaterOrEqual(x0, x1, xs) => seq![*x0, *x1],
        Expression::Equals(x0, x1, xs) => seq![*x0, *x1],
        Expression::NotEquals(x0, x1, xs) => seq![*x0, *x1],
        Expression::Negation(x0, xs) => seq![*x0],
        Expression::Conjunction(x0, x1, xs) => seq![*x0, *x1],
        Expression::Disjunction(x0, x1, xs) => seq![*x0, *x1],
        Expression::IfAndOnlyIf(x0, x1, xs) => seq![*x0, *x1],
        Expression::Implies(x0, x1, xs) => seq![*x0, *x1],
        Expression::Ternary(x0, x1, x2, xs) => seq![*x0, *x1, *x2],
        _ => seq![],
    }
}

/// Each direct subexpression is smaller than the expression.
pub proof fn lemma_children_decrease<V, S: Span>(e: Expression<V, S>, i: int)
    requires
        0 <= i < children(e).len(),
    ensures
        decreases_to!(e => children(e)[i]),
{
    match e {
        Expression::Function(..) => {
            assert(decreases_to!(e => e->Function_1));
            assert(decreases_to!(e->Function_1 => e->Function_1@));
            assert(decreases_to!(e->Function_1@ => e->Function_1@[i]));
        },
        Expression::Minus(..) => {
            assert(decreases_to!(e => e->Minus_0));
        },
        Expression::Multiplication(..) => {
            assert(decreases_to!(e => e->Multiplication_0));
            assert(decreases_to!(e => e->Multiplication_1));
        },
        Expression::Division(..) => {
            assert(decreases_to!(e => e->Division_0));
            assert(decreases_to!(e => e->Division_1));
        },
        Expression::Addition(..) => {
            assert(decreases_to!(e => e->Addition_0));
            assert(decreases_to!(e => e->Addition_1));
        },
        Expression::Subtraction(..) => {
            assert(decreases_to!(e => e->Subtraction_0));
            assert(decreases_to!(e => e->Subtraction_1));
        },
        Expression::LessThan(..) => {
            assert(decreases_to!(e => e->LessThan_0));
            assert(decreases_to!(e => e->LessThan_1));
        },
        Expression::LessOrEqual(..) => {
            assert(decreases_to!(e => e->LessOrEqual_0));
            assert(decreases_to!(e => e->LessOrEqual_1));
        },
        Expression::GreaterThan(..) => {
            assert(decreases_to!(e => e->GreaterThan_0));
            assert(decreases_to!(e => e->GreaterThan_1));
        },
        Expression::GreaterOrEqual(..) => {
            assert(decreases_to!(e => e->GreaterOrEqual_0));
            assert(decreases_to!(e => e->GreaterOrEqual_1));
        },
        Expression::Equals(..) => {
            assert(decreases_to!(e => e->Equals_0));
            assert(decreases_to!(e => e->Equals_1));
        },
        Expression::NotEquals(..) => {
            assert(decreases_to!(e => e->NotEquals_0));
            assert(decreases_to!(e => e->NotEquals_1));
        },
        Expression::Negation(..) => {
            assert(decreases_to!(e => e->Negation_0));
        },
        Expression::Conjunction(..) => {
            assert(decreases_to!(e => e->Conjunction_0));
            assert(decreases_to!(e => e->Conjunction_1));
        },
        Expression::Disjunction(..) => {
            assert(decreases_to!(e => e->Disjunction_0));
            assert(decreases_to!(e => e->Disjunction_1));
        },
        Expression::IfAndOnlyIf(..) => {
            assert(decreases_to!(e => e->IfAndOnlyIf_0));
            assert(decreases_to!(e => e->IfAndOnlyIf_1));
        },
        Expression::Implies(..) => {
            assert(decreases_to!(e => e->Implies_0));
            assert(decreases_to!(e => e->Implies_1));
        },
        Expression::Ternary(..) => {
            assert(decreases_to!(e => e->Ternary_0));
            assert(decreases_to!(e => e->Ternary_1));
            assert(decreases_to!(e => e->Ternary_2));
        },
        _ => {},
    }
}

/// The two nodes carry the same literal value, variable or function name (when they are of the
/// same variant). Subexpressions and spans are not compared.
pub open spec fn payload_eq<V, S: Span>(e: Expression<V, S>, r: Expression<V, S>) -> bool {
    match (e, r) {
        (Expression::Int(a, _), Expression::Int(b, _)) => a == b,
        (Expression::Float(a, _), Expression::Float(b, _)) => a == b,
        (Expression::Bool(a, _), Expression::Bool(b, _)) => a == b,
        (Expression::VarOrConst(a, _), Expression::VarOrConst(b, _)) => a == b,
        (Expression::Label(a, _), Expression::Label(b, _)) => a == b,
        (Expression::Function(a, _, _), Expression::Function(b, _, _)) => a == b,
        _ => true,
    }
}

/// The two nodes carry the same literal value (when they are literals of the same variant).
pub open spec fn literal_eq<V, S: Span, V2, S2: Span>(e: Expression<V, S>, r: Expression<V2, S2>) -> bool {
    match (e, r) {
        (Expression::Int(a, _), Expression::Int(b, _)) => a == b,
        (Expression::Float(a, _), Expression::Float(b, _)) => a == b,
        (Expression::Bool(a, _), Expression::Bool(b, _)) => a == b,
        _ => true,
    }
}

/// `r` is obtained from `e` by replacing every node `n` by a node `m` with `node(n, m)`, keeping
/// the tree structure: `r` has as many direct subexpressions as `e`, and they are related in the
/// same way, position by position.
pub open spec fn mapped<V, S: Span, V2, S2: Span>(
    e: Expression<V, S>,
    r: Expression<V2, S2>,
    node: spec_fn(Expression<V, S>, Expression<V2, S2>) -> bool,
) -> bool
    decreases e,
{
    &&& node(e, r)
    &&& children(r).len() == children(e).len()
    &&& forall|i: int|
        0 <= i < children(e).len() ==> {
            proof {
                lemma_children_decrease(e, i);
            }
            mapped(#[trigger] children(e)[i], children(r)[i], node)
        }
}

/// The node relation of an exact copy: same variant, same literal, variable or function name,
/// same span.
pub open spec fn copy_node<V, S: Span>() -> spec_fn(Expression<V, S>, Expression<V, S>) -> bool {
    |e: Expression<V, S>, r: Expression<V, S>|
        kind(r) == kind(e) && span_of(r) == span_of(e) && payload_eq(e, r)
}

/// `r` is an exact (deep) copy of `e`.
pub open spec fn copied<V, S: Span>(e: Expression<V, S>, r: Expression<V, S>) -> bool {
    mapped(e, r, copy_node())
}

/// The node relation of [`Expression::map_span`]: every span `s` becomes a span that `f` may
/// return for `s`, including the span of a function's name; everything else is kept.
pub open spec fn span_map_node<V, S: Span, S2: Span, F: Fn(S) -> S2>(f: F) -> spec_fn(
    Expression<V, S>,
    Expression<V, S2>,
) -> bool {
    |e: Expression<V, S>, r: Expression<V, S2>|
        {
            &&& kind(r) == kind(e)
            &&& call_ensures(f, (span_of(e),), span_of(r))
            &&& literal_eq(e, r)
            &&& (e matches Expression::VarOrConst(a, _) ==> r->VarOrConst_0 == a)
            &&& (e matches Expression::Label(a, _) ==> r->Label_0 == a)
            &&& (e matches Expression::Function(a, _, _) ==> r->Function_0.name == a.name
                && call_ensures(f, (a.span,), r->Function_0.span))
        }
}

/// The node relation of [`Expression::map_variable`]: every variable or label `v` becomes a value
/// that `f` may return for `v`; everything else is kept.
pub open spec fn variable_map_node<V, V2, S: Span, F: Fn(V) -> V2>(f: F) -> spec_fn(
    Expression<V, S>,
    Expression<V2, S>,
) -> bool {
    |e: Expression<V, S>, r: Expression<V2, S>|
        {
            &&& kind(r) == kind(e)
            &&& span_of(r) == span_of(e)
            &&& literal_eq(e, r)
            &&& (e matches Expression::VarOrConst(a, _) ==> call_ensures(f, (a,), r->VarOrConst_0))
            &&& (e matches Expression::Label(a, _) ==> call_ensures(f, (a,), r->Label_0))
            &&& (e matches Expression::Function(a, _, _) ==> r->Function_0 == a)
        }
}

/// The node relation of [`Expression::renamed`]: every variable is renamed by the rules; labels,
/// function names, literals and spans are kept.
pub open spec fn rename_node<S: Span>(rules: Seq<RenameRule<S>>) -> spec_fn(
    Expression<Identifier<S>, S>,
    Expression<Identifier<S>, S>,
) -> bool {
    |e: Expression<Identifier<S>, S>, r: Expression<Identifier<S>, S>|
        {
            &&& kind(r) == kind(e)
            &&& span_of(r) == span_of(e)
            &&& literal_eq(e, r)
            &&& (e matches Expression::VarOrConst(a, _) ==> r->VarOrConst_0 == spec_renaming(rules, a))
            &&& (e matches Expression::Label(a, _) ==> r->Label_0 == a)
            &&& (e matches Expression::Function(a, _, _) ==> r->Function_0 == a)
        }
}

/// `e` is a variable (or, if `label`, a label) whose name is `name`.
pub open spec fn names_target<S: Span>(e: Expression<Identifier<S>, S>, name: Seq<char>, label: bool) -> bool {
    if label {
        e matches Expression::Label(n, _) && n.name@ == name
    } else {
        e matches Expression::VarOrConst(n, _) && n.name@ == name
    }
}

/// `r` is `e` with every variable (or, if `label`, every label) named `name` replaced by a copy
/// of `replacement`. The replacement itself is not searched again.
pub open spec fn substituted<S: Span>(
    e: Expression<Identifier<S>, S>,
    r: Expression<Identifier<S>, S>,
    name: Seq<char>,
    replacement: Expression<Identifier<S>, S>,
    label: bool,
) -> bool
    decreases e,
{
    if names_target(e, name, label) {
        copied(replacement, r)
    } else {
        &&& copy_node()(e, r)
        &&& children(r).len() == children(e).len()
        &&& forall|i: int|
            0 <= i < children(e).len() ==> {
                proof {
                    lemma_children_decrease(e, i);
                }
                substituted(#[trigger] children(e)[i], children(r)[i], name, replacement, label)
            }
    }
}

/// Each of the substitutions in `steps` applied in turn leads from `first` to `last`: there is a
/// chain of expressions, one substitution of a variable (or label) `steps[k].0` by `steps[k].1`
/// between neighbours.
pub open spec fn substituted_in_turn<S: Span>(
    first: Expression<Identifier<S>, S>,
    last: Expression<Identifier<S>, S>,
    steps: Seq<(Seq<char>, Expression<Identifier<S>, S>)>,
    label: bool,
) -> bool {
    exists|chain: Seq<Expression<Identifier<S>, S>>|
        {
            &&& chain.len() == steps.len() + 1
            &&& chain[0] == first
            &&& chain.last() == last
            &&& forall|k: int|
                0 <= k < steps.len() ==> substituted(
                    #[trigger] chain[k],
                    chain[k + 1],
                    steps[k].0,
                    steps[k].1,
                    label,
                )
        }
}

/// Error to indicate that a variable was not found while replacing identifiers by variable
/// references: the expression refers (as a variable, constant or label) to a name that the
/// [`VariableManager`](crate::VariableManager) does not hold.
#[derive(Debug)]
pub struct UnknownVariableError<S: Span> {
    /// The identifier of the variable, constant or formula that was not found.
    pub identifier: Identifier<S>,
}

/// The variables and labels that occur in an expression, from left to right.
pub open spec fn occurrences<V, S: Span>(e: Expression<V, S>) -> Seq<V>
    decreases e, children(e).len() + 1,
{
    match e {
        Expression::VarOrConst(v, _) => seq![v],
        Expression::Label(v, _) => seq![v],
        _ => occurrences_from(e, 0),
    }
}

/// The variables and labels that occur in the direct subexpressions of `e` from position `i` on,
/// from left to right.
pub open spec fn occurrences_from<V, S: Span>(e: Expression<V, S>, i: int) -> Seq<V>
    decreases e, children(e).len() - i,
{
    if 0 <= i < children(e).len() {
        proof {
            lemma_children_decrease(e, i);
        }
        occurrences(children(e)[i]) + occurrences_from(e, i + 1)
    } else {
        Seq::empty()
    }
}

/// The variables (not the labels) that occur in an expression, each with the span of its
/// occurrence, from left to right.
pub open spec fn variable_uses<V, S: Span>(e: Expression<V, S>) -> Seq<(V, S)>
    decreases e, children(e).len() + 1,
{
    match e {
        Expression::VarOrConst(v, s) => seq![(v, s)],
        Expression::Label(..) => Seq::empty(),
        _ => variable_uses_from(e, 0),
    }
}

/// The variables that occur in the direct subexpressions of `e` from position `i` on, each with
/// its span, from left to right.
pub open spec fn variable_uses_from<V, S: Span>(e: Expression<V, S>, i: int) -> Seq<(V, S)>
    decreases e, children(e).len() - i,
{
    if 0 <= i < children(e).len() {
        proof {
            lemma_children_decrease(e, i);
        }
        variable_uses(children(e)[i]) + variable_uses_from(e, i + 1)
    } else {
        Seq::empty()
    }
}

impl<V, S: Span> Expression<V, S> {
    /// Constructs an integer literal with an empty span.
    pub fn int_literal(val: i64) -> (r: Self)
        ensures
            r matches Expression::Int(y0, s) && s.spec_range() is None && y0 == val,
    {
        Expression::Int(val, S::empty())
    }

    /// Constructs an integer literal with the given span.
    pub fn int_spanned(val: i64, span: S) -> (r: Self)
        ensures
            r == Expression::<V, S>::Int(val, span),
    {
        Expression::Int(val, span)
    }

    /// Constructs a floating-point literal, stored as the bit pattern of an IEEE 754 binary64 value with an empty span.
    pub fn float(val: u64) -> (r: Self)
        ensures
            r matches Expression::Float(y0, s) && s.spec_range() is None && y0 == val,
    {
        Expression::Float(val, S::empty())
    }

    /// Constructs a floating-point literal, stored as the bit pattern of an IEEE 754 binary64 value with the given span.
    pub fn float_spanned(val: u64, span: S) -> (r: Self)
        ensures
            r == Expression::<V, S>::Float(val, span),
    {
        Expression::Float(val, span)
    }

    /// Constructs a boolean literal with an empty span.
    pub fn bool(val: bool) -> (r: Self)
        ensures
            r matches Expression::Bool(y0, s) && s.spec_range() is None && y0 == val,
    {
        Expression::Bool(val, S::empty())
    }

    /// Constructs a boolean literal with the given span.
    pub fn bool_spanned(val: bool, span: S) -> (r: Self)
        ensures
            r == Expression::<V, S>::Bool(val, span),
    {
        Expression::Bool(val, span)
    }

    /// Constructs a variable or constant with an empty span.
    pub fn var_or_const(id: V) -> (r: Self)
        ensures
            r matches Expression::VarOrConst(y0, s) && s.spec_range() is None && y0 == id,
    {
        Expression::VarOrConst(id, S::empty())
    }

    /// Constructs a variable or constant with the given span.
    pub fn var_or_const_spanned(id: V, span: S) -> (r: Self)
        ensures
            r == Expression::<V, S>::VarOrConst(id, span),
    {
        Expression::VarOrConst(id, span)
    }

    /// Constructs a label, written `"name"` in PRISM with an empty span.
    pub fn label(id: V) -> (r: Self)
        ensures
            r matches Expression::Label(y0, s) && s.spec_range() is None && y0 == id,
    {
        Expression::Label(id, S::empty())
    }

    /// Constructs a label, written `"name"` in PRISM with the given span.
    pub fn label_spanned(id: V, span: S) -> (r: Self)
        ensures
            r == Expression::<V, S>::Label(id, span),
    {
        Expression::Label(id, span)
    }

    /// Constructs a function call, e.g. `min(a, b)` with an empty span.
    pub fn function(identifier: Identifier<S>, args: Vec<Self>) -> (r: Self)
        ensures
            r matches Expression::Function(y0, y1, s) && s.spec_range() is None && y0 == identifier && y1 == args,
    {
        Expression::Function(identifier, args, S::empty())
    }

    /// Constructs a function call, e.g. `min(a, b)` with the given span.
    pub fn function_spanned(identifier: Identifier<S>, args: Vec<Self>, span: S) -> (r: Self)
        ensures
            r == Expression::<V, S>::Function(identifier, args, span),
    {
        Expression::Function(identifier, args, span)
    }

    /// Constructs the negated value `-a` with an empty span.
    pub fn negate_value(self) -> (r: Self)
        ensures
            r matches Expression::Minus(y0, s) && s.spec_range() is None && *y0 == self,
    {
        Expression::Minus(Box::new(self), S::empty())
    }

    /// Constructs the negated value `-a` with the given span.
    pub fn negate_value_spanned(self, span: S) -> (r: Self)
        ensures
            r == Expression::<V, S>::Minus(Box::new(self), span),
    {
        Expression::Minus(Box::new(self), span)
    }

    /// Constructs the product `a*b` with an empty span.
    pub fn times(self, other: Self) -> (r: Self)
        ensures
            r matches Expression::Multiplication(y0, y1, s) && s.spec_range() is None && *y0 == self && *y1 == other,
    {
        Expression::Multiplication(Box::new(self), Box::new(other), S::empty())
    }

    /// Constructs the product `a*b` with the given span.
    pub fn times_spanned(self, other: Self, span: S) -> (r: Self)
        ensures
            r == Expression::<V, S>::Multiplication(Box::new(self), Box::new(other), span),
    {
        Expression::Multiplication(Box::new(self), Box::new(other), span)
    }

    /// Constructs the quotient `a/b` with an empty span.
    pub fn divide_by(self, other: Self) -> (r: Self)
        ensures
            r matches Expression::Division(y0, y1, s) && s.spec_range() is None && *y0 == self && *y1 == other,
    {
        Expression::Division(Box::new(self), Box::new(other), S::empty())
    }

    /// Constructs the quotient `a/b` with the given span.
    pub fn divide_by_spanned(self, other: Self, span: S) -> (r: Self)
        ensures
            r == Expression::<V, S>::Division(Box::new(self), Box::new(other), span),
    {
        Expression::Division(Box::new(self), Box::new(other), span)
    }

    /// Constructs the sum `a+b` with an empty span.
    pub fn plus(self, other: Self) -> (r: Self)
        ensures
            r matches Expression::Addition(y0, y1, s) && s.spec_range() is None && *y0 == self && *y1 == other,
    {
        Expression::Addition(Box::new(self), Box::new(other), S::empty())
    }

    /// Constructs the sum `a+b` with the given span.
    pub fn plus_spanned(self, other: Self, span: S) -> (r: Self)
        ensures
            r == Expression::<V, S>::Addition(Box::new(self), Box::new(other), span),
    {
        Expression::Addition(Box::new(self), Box::new(other), span)
    }

    /// Constructs the difference `a-b` with an empty span.
    pub fn minus(self, other: Self) -> (r: Self)
        ensures
            r matches Expression::Subtraction(y0, y1, s) && s.spec_range() is None && *y0 == self && *y1 == other,
    {
        Expression::Subtraction(Box::new(self), Box::new(other), S::empty())
    }

    /// Constructs the difference `a-b` with the given span.
    pub fn minus_spanned(self, other: Self, span: S) -> (r: Self)
        ensures
            r == Expression::<V, S>::Subtraction(Box::new(self), Box::new(other), span),
    {
        Expression::Subtraction(Box::new(self), Box::new(other), span)
    }

    /// Constructs the comparison `a<b` with an empty span.
    pub fn less_than(self, other: Self) -> (r: Self)
        ensures
            r matches Expression::LessThan(y0, y1, s) && s.spec_range() is None && *y0 == self && *y1 == other,
    {
        Expression::LessThan(Box::new(self), Box::new(other), S::empty())
    }

    /// Constructs the comparison `a<b` with the given span.
    pub fn less_than_spanned(self, other: Self, span: S) -> (r: Self)
        ensures
            r == Expression::<V, S>::LessThan(Box::new(self), Box::new(other), span),
    {
        Expression::LessThan(Box::new(self), Box::new(other), span)
    }

    /// Constructs the comparison `a<=b` with an empty span.
    pub fn less_or_equal(self, other: Self) -> (r: Self)
        ensures
            r matches Expression::LessOrEqual(y0, y1, s) && s.spec_range() is None && *y0 == self && *y1 == other,
    {
        Expression::LessOrEqual(Box::new(self), Box::new(other), S::empty())
    }

    /// Constructs the comparison `a<=b` with the given span.
    pub fn less_or_equal_spanned(self, other: Self, span: S) -> (r: Self)
        ensures
            r == Expression::<V, S>::LessOrEqual(Box::new(self), Box::new(other), span),
    {
        Expression::LessOrEqual(Box::new(self), Box::new(other), span)
    }

    /// Constructs the comparison `a>b` with an empty span.
    pub fn greater_than(self, other: Self) -> (r: Self)
        ensures
            r matches Expression::GreaterThan(y0, y1, s) && s.spec_range() is None && *y0 == self && *y1 == other,
    {
        Expression::GreaterThan(Box::new(self), Box::new(other), S::empty())
    }

    /// Constructs the comparison `a>b` with the given span.
    pub fn greater_than_spanned(self, other: Self, span: S) -> (r: Self)
        ensures
            r == Expression::<V, S>::GreaterThan(Box::new(self), Box::new(other), span),
    {
        Expression::GreaterThan(Box::new(self), Box::new(other), span)
    }

    /// Constructs the comparison `a>=b` with an empty span.
    pub fn greater_or_equal(self, other: Self) -> (r: Self)
        ensures
            r matches Expression::GreaterOrEqual(y0, y1, s) && s.spec_range() is None && *y0 == self && *y1 == other,
    {
        Expression::GreaterOrEqual(Box::new(self), Box::new(other), S::empty())
    }

    /// Constructs the comparison `a>=b` with the given span.
    pub fn greater_or_equal_spanned(self, other: Self, span: S) -> (r: Self)
        ensures
            r == Expression::<V, S>::GreaterOrEqual(Box::new(self), Box::new(other), span),
    {
        Expression::GreaterOrEqual(Box::new(self), Box::new(other), span)
    }

    /// Constructs the comparison `a=b` with an empty span.
    pub fn equals_to(self, other: Self) -> (r: Self)
        ensures
            r matches Expression::Equals(y0, y1, s) && s.spec_range() is None && *y0 == self && *y1 == other,
    {
        Expression::Equals(Box::new(self), Box::new(other), S::empty())
    }

    /// Constructs the comparison `a=b` with the given span.
    pub fn equals_to_spanned(self, other: Self, span: S) -> (r: Self)
        ensures
            r == Expression::<V, S>::Equals(Box::new(self), Box::new(other), span),
    {
        Expression::Equals(Box::new(self), Box::new(other), span)
    }

    /// Constructs the comparison `a!=b` with an empty span.
    pub fn not_equals_to(self, other: Self) -> (r: Self)
        ensures
            r matches Expression::NotEquals(y0, y1, s) && s.spec_range() is None && *y0 == self && *y1 == other,
    {
        Expression::NotEquals(Box::new(self), Box::new(other), S::empty())
    }

    /// Constructs the comparison `a!=b` with the given span.
    pub fn not_equals_to_spanned(self, other: Self, span: S) -> (r: Self)
        ensures
            r == Expression::<V, S>::NotEquals(Box::new(self), Box::new(other), span),
    {
        Expression::NotEquals(Box::new(self), Box::new(other), span)
    }

    /// Constructs the boolean negation `!a` with an empty span.
    pub fn negate_bool(self) -> (r: Self)
        ensures
            r matches Expression::Negation(y0, s) && s.spec_range() is None && *y0 == self,
    {
        Expression::Negation(Box::new(self), S::empty())
    }

    /// Constructs the boolean negation `!a` with the given span.
    pub fn negate_bool_spanned(self, span: S) -> (r: Self)
        ensures
            r == Expression::<V, S>::Negation(Box::new(self), span),
    {
        Expression::Negation(Box::new(self), span)
    }

    /// Constructs the conjunction `a&b` with an empty span.
    pub fn and(self, other: Self) -> (r: Self)
        ensures
            r matches Expression::Conjunction(y0, y1, s) && s.spec_range() is None && *y0 == self && *y1 == other,
    {
        Expression::Conjunction(Box::new(self), Box::new(other), S::empty())
    }

    /// Constructs the conjunction `a&b` with the given span.
    pub fn and_spanned(self, other: Self, span: S) -> (r: Self)
        ensures
            r == Expression::<V, S>::Conjunction(Box::new(self), Box::new(other), span),
    {
        Expression::Conjunction(Box::new(self), Box::new(other), span)
    }

    /// Constructs the disjunction `a|b` with an empty span.
    pub fn or(self, other: Self) -> (r: Self)
        ensures
            r matches Expression::Disjunction(y0, y1, s) && s.spec_range() is None && *y0 == self && *y1 == other,
    {
        Expression::Disjunction(Box::new(self), Box::new(other), S::empty())
    }

    /// Constructs the disjunction `a|b` with the given span.
    pub fn or_spanned(self, other: Self, span: S) -> (r: Self)
        ensures
            r == Expression::<V, S>::Disjunction(Box::new(self), Box::new(other), span),
    {
        Expression::Disjunction(Box::new(self), Box::new(other), span)
    }

    /// Constructs the equivalence `a<=>b` with an empty span.
    pub fn if_and_only_if(self, other: Self) -> (r: Self)
        ensures
            r matches Expression::IfAndOnlyIf(y0, y1, s) && s.spec_range() is None && *y0 == self && *y1 == other,
    {
        Expression::IfAndOnlyIf(Box::new(self), Box::new(other), S::empty())
    }

    /// Constructs the equivalence `a<=>b` with the given span.
    pub fn if_and_only_if_spanned(self, other: Self, span: S) -> (r: Self)
        ensures
            r == Expression::<V, S>::IfAndOnlyIf(Box::new(self), Box::new(other), span),
    {
        Expression::IfAndOnlyIf(Box::new(self), Box::new(other), span)
    }

    /// Constructs the implication `a=>b` with an empty span.
    pub fn implies(self, other: Self) -> (r: Self)
        ensures
            r matches Expression::Implies(y0, y1, s) && s.spec_range() is None && *y0 == self && *y1 == other,
    {
        Expression::Implies(Box::new(self), Box::new(other), S::empty())
    }

    /// Constructs the implication `a=>b` with the given span.
    pub fn implies_spanned(self, other: Self, span: S) -> (r: Self)
        ensures
            r == Expression::<V, S>::Implies(Box::new(self), Box::new(other), span),
    {
        Expression::Implies(Box::new(self), Box::new(other), span)
    }

    /// Constructs the conditional `c ? a : b` with an empty span.
    pub fn ternary(self, branch_1: Self, branch_2: Self) -> (r: Self)
        ensures
            r matches Expression::Ternary(y0, y1, y2, s) && s.spec_range() is None && *y0 == self && *y1 == branch_1 && *y2 == branch_2,
    {
        Expression::Ternary(Box::new(self), Box::new(branch_1), Box::new(branch_2), S::empty())
    }

    /// Constructs the conditional `c ? a : b` with the given span.
    pub fn ternary_spanned(self, branch_1: Self, branch_2: Self, span: S) -> (r: Self)
        ensures
            r == Expression::<V, S>::Ternary(Box::new(self), Box::new(branch_1), Box::new(branch_2), span),
    {
        Expression::Ternary(Box::new(self), Box::new(branch_1), Box::new(branch_2), span)
    }

    /// Returns the span of the outermost node.
    pub fn span(&self) -> (r: &S)
        ensures
            *r == span_of(*self),
    {
        match self {
            Expression::Int(x0, xs) => xs,
            Expression::Float(x0, xs) => xs,
            Expression::Bool(x0, xs) => xs,
            Expression::VarOrConst(x0, xs) => xs,
            Expression::Label(x0, xs) => xs,
            Expression::Function(x0, x1, xs) => xs,
            Expression::Minus(x0, xs) => xs,
            Expression::Multiplication(x0, x1, xs) => xs,
            Expression::Division(x0, x1, xs) => xs,
            Expression::Addition(x0, x1, xs) => xs,
            Expression::Subtraction(x0, x1, xs) => xs,
            Expression::LessThan(x0, x1, xs) => xs,
            Expression::LessOrEqual(x0, x1, xs) => xs,
            Expression::GreaterThan(x0, x1, xs) => xs,
            Expression::GreaterOrEqual(x0, x1, xs) => xs,
            Expression::Equals(x0, x1, xs) => xs,
            Expression::NotEquals(x0, x1, xs) => xs,
            Expression::Negation(x0, xs) => xs,
            Expression::Conjunction(x0, x1, xs) => xs,
            Expression::Disjunction(x0, x1, xs) => xs,
            Expression::IfAndOnlyIf(x0, x1, xs) => xs,
            Expression::Implies(x0, x1, xs) => xs,
            Expression::Ternary(x0, x1, x2, xs) => xs,
        }
    }

    /// Returns the binding strength of the outermost operator (larger binds tighter).
    pub fn get_precedence(&self) -> (r: usize)
        ensures
            r == precedence(*self),
    {
        match self {
            Expression::Int(..) => 12,
            Expression::Float(..) => 12,
            Expression::Bool(..) => 12,
            Expression::VarOrConst(..) => 12,
            Expression::Label(..) => 12,
            Expression::Function(..) => 12,
            Expression::Minus(..) => 11,
            Expression::Multiplication(..) => 10,
            Expression::Division(..) => 10,
            Expression::Addition(..) => 9,
            Expression::Subtraction(..) => 9,
            Expression::LessThan(..) => 8,
            Expression::LessOrEqual(..) => 8,
            Expression::GreaterThan(..) => 8,
            Expression::GreaterOrEqual(..) => 8,
            Expression::Equals(..) => 7,
            Expression::NotEquals(..) => 7,
            Expression::Negation(..) => 6,
            Expression::Conjunction(..) => 5,
            Expression::Disjunction(..) => 4,
            Expression::IfAndOnlyIf(..) => 3,
            Expression::Implies(..) => 2,
            Expression::Ternary(..) => 1,
        }
    }

    /// Maps every span of this expression (including the spans of function names) with `map`.
    /// Everything else is kept.
    #[verifier::loop_isolation(false)]
    pub fn map_span<S2: Span, F: Fn(S) -> S2>(self, map: &F) -> (r: Expression<V, S2>)
        requires
            forall|s: S| #[trigger] call_requires(*map, (s,)),
        ensures
            mapped(self, r, span_map_node::<V, S, S2, F>(*map)),
        decreases self,
    {
        let ghost e0 = self;
        match self {
            Expression::Int(x0, xs) => Expression::Int(x0, map(xs)),
            Expression::Float(x0, xs) => Expression::Float(x0, map(xs)),
            Expression::Bool(x0, xs) => Expression::Bool(x0, map(xs)),
            Expression::VarOrConst(x0, xs) => Expression::VarOrConst(x0, map(xs)),
            Expression::Label(x0, xs) => Expression::Label(x0, map(xs)),
            Expression::Function(x0, x1, xs) => {
                let mut rest = x1;
                let mut out: Vec<Expression<V, S2>> = Vec::new();
                let ghost orig = rest@;
                assert(orig.skip(0) =~= orig);
                while rest.len() > 0
                    invariant
                        e0 is Function,
                        children(e0) == orig,
                        out@.len() <= orig.len(),
                        rest@ == orig.skip(out@.len() as int),
                        forall|j: int| 0 <= j < out@.len() ==> mapped(orig[j], out@[j], span_map_node::<V, S, S2, F>(*map)),
                        forall|s: S| #[trigger] call_requires(*map, (s,)),
                    decreases rest.len(),
                {
                    let ghost k = out@.len() as int;
                    proof {
                        lemma_children_decrease(e0, k);
                        assert(orig.skip(k).drop_first() =~= orig.skip(k + 1));
                    }
                    let a = rest.remove(0);
                    out.push(a.map_span(map));
                }
                let r = Expression::Function(x0.map_span(map), out, map(xs));
                assert(children(r) == out@);
                r
            },
            Expression::Minus(x0, xs) => Expression::Minus(Box::new((*x0).map_span(map)), map(xs)),
            Expression::Multiplication(x0, x1, xs) => Expression::Multiplication(Box::new((*x0).map_span(map)), Box::new((*x1).map_span(map)), map(xs)),
            Expression::Division(x0, x1, xs) => Expression::Division(Box::new((*x0).map_span(map)), Box::new((*x1).map_span(map)), map(xs)),
            Expression::Addition(x0, x1, xs) => Expression::Addition(Box::new((*x0).map_span(map)), Box::new((*x1).map_span(map)), map(xs)),
            Expression::Subtraction(x0, x1, xs) => Expression::Subtraction(Box::new((*x0).map_span(map)), Box::new((*x1).map_span(map)), map(xs)),
            Expression::LessThan(x0, x1, xs) => Expression::LessThan(Box::new((*x0).map_span(map)), Box::new((*x1).map_span(map)), map(xs)),
            Expression::LessOrEqual(x0, x1, xs) => Expression::LessOrEqual(Box::new((*x0).map_span(map)), Box::new((*x1).map_span(map)), map(xs)),
            Expression::GreaterThan(x0, x1, xs) => Expression::GreaterThan(Box::new((*x0).map_span(map)), Box::new((*x1).map_span(map)), map(xs)),
            Expression::GreaterOrEqual(x0, x1, xs) => Expression::GreaterOrEqual(Box::new((*x0).map_span(map)), Box::new((*x1).map_span(map)), map(xs)),
            Expression::Equals(x0, x1, xs) => Expression::Equals(Box::new((*x0).map_span(map)), Box::new((*x1).map_span(map)), map(xs)),
            Expression::NotEquals(x0, x1, xs) => Expression::NotEquals(Box::new((*x0).map_span(map)), Box::new((*x1).map_span(map)), map(xs)),
            Expression::Negation(x0, xs) => Expression::Negation(Box::new((*x0).map_span(map)), map(xs)),
            Expression::Conjunction(x0, x1, xs) => Expression::Conjunction(Box::new((*x0).map_span(map)), Box::new((*x1).map_span(map)), map(xs)),
            Expression::Disjunction(x0, x1, xs) => Expression::Disjunction(Box::new((*x0).map_span(map)), Box::new((*x1).map_span(map)), map(xs)),
            Expression::IfAndOnlyIf(x0, x1, xs) => Expression::IfAndOnlyIf(Box::new((*x0).map_span(map)), Box::new((*x1).map_span(map)), map(xs)),
            Expression::Implies(x0, x1, xs) => Expression::Implies(Box::new((*x0).map_span(map)), Box::new((*x1).map_span(map)), map(xs)),
            Expression::Ternary(x0, x1, x2, xs) => Expression::Ternary(Box::new((*x0).map_span(map)), Box::new((*x1).map_span(map)), Box::new((*x2).map_span(map)), map(xs)),
        }
    }

    /// Maps every variable and label of this expression with `map`. Everything else is kept.
    #[verifier::loop_isolation(false)]
    pub fn map_variable<V2, F: Fn(V) -> V2>(self, map: &F) -> (r: Expression<V2, S>)
        requires
            forall|v: V| #[trigger] call_requires(*map, (v,)),
        ensures
            mapped(self, r, variable_map_node::<V, V2, S, F>(*map)),
        decreases self,
    {
        let ghost e0 = self;
        match self {
            Expression::Int(x0, xs) => Expression::Int(x0, xs),
            Expression::Float(x0, xs) => Expression::Float(x0, xs),
            Expression::Bool(x0, xs) => Expression::Bool(x0, xs),
            Expression::VarOrConst(x0, xs) => Expression::VarOrConst(map(x0), xs),
            Expression::Label(x0, xs) => Expression::Label(map(x0), xs),
            Expression::Function(x0, x1, xs) => {
                let mut rest = x1;
                let mut out: Vec<Expression<V2, S>> = Vec::new();
                let ghost orig = rest@;
                assert(orig.skip(0) =~= orig);
                while rest.len() > 0
                    invariant
                        e0 is Function,
                        children(e0) == orig,
                        out@.len() <= orig.len(),
                        rest@ == orig.skip(out@.len() as int),
                        forall|j: int| 0 <= j < out@.len() ==> mapped(orig[j], out@[j], variable_map_node::<V, V2, S, F>(*map)),
                        forall|v: V| #[trigger] call_requires(*map, (v,)),
                    decreases rest.len(),
                {
                    let ghost k = out@.len() as int;
                    proof {
                        lemma_children_decrease(e0, k);
                        assert(orig.skip(k).drop_first() =~= orig.skip(k + 1));
                    }
                    let a = rest.remove(0);
                    out.push(a.map_variable(map));
                }
                let r = Expression::Function(x0, out, xs);
                assert(children(r) == out@);
                r
            },
            Expression::Minus(x0, xs) => Expression::Minus(Box::new((*x0).map_variable(map)), xs),
            Expression::Multiplication(x0, x1, xs) => Expression::Multiplication(Box::new((*x0).map_variable(map)), Box::new((*x1).map_variable(map)), xs),
            Expression::Division(x0, x1, xs) => Expression::Division(Box::new((*x0).map_variable(map)), Box::new((*x1).map_variable(map)), xs),
            Expression::Addition(x0, x1, xs) => Expression::Addition(Box::new((*x0).map_variable(map)), Box::new((*x1).map_variable(map)), xs),
            Expression::Subtraction(x0, x1, xs) => Expression::Subtraction(Box::new((*x0).map_variable(map)), Box::new((*x1).map_variable(map)), xs),
            Expression::LessThan(x0, x1, xs) => Expression::LessThan(Box::new((*x0).map_variable(map)), Box::new((*x1).map_variable(map)), xs),
            Expression::LessOrEqual(x0, x1, xs) => Expression::LessOrEqual(Box::new((*x0).map_variable(map)), Box::new((*x1).map_variable(map)), xs),
            Expression::GreaterThan(x0, x1, xs) => Expression::GreaterThan(Box::new((*x0).map_variable(map)), Box::new((*x1).map_variable(map)), xs),
            Expression::GreaterOrEqual(x0, x1, xs) => Expression::GreaterOrEqual(Box::new((*x0).map_variable(map)), Box::new((*x1).map_variable(map)), xs),
            Expression::Equals(x0, x1, xs) => Expression::Equals(Box::new((*x0).map_variable(map)), Box::new((*x1).map_variable(map)), xs),
            Expression::NotEquals(x0, x1, xs) => Expression::NotEquals(Box::new((*x0).map_variable(map)), Box::new((*x1).map_variable(map)), xs),
            Expression::Negation(x0, xs) => Expression::Negation(Box::new((*x0).map_variable(map)), xs),
            Expression::Conjunction(x0, x1, xs) => Expression::Conjunction(Box::new((*x0).map_variable(map)), Box::new((*x1).map_variable(map)), xs),
            Expression::Disjunction(x0, x1, xs) => Expression::Disjunction(Box::new((*x0).map_variable(map)), Box::new((*x1).map_variable(map)), xs),
            Expression::IfAndOnlyIf(x0, x1, xs) => Expression::IfAndOnlyIf(Box::new((*x0).map_variable(map)), Box::new((*x1).map_variable(map)), xs),
            Expression::Implies(x0, x1, xs) => Expression::Implies(Box::new((*x0).map_variable(map)), Box::new((*x1).map_variable(map)), xs),
            Expression::Ternary(x0, x1, x2, xs) => Expression::Ternary(Box::new((*x0).map_variable(map)), Box::new((*x1).map_variable(map)), Box::new((*x2).map_variable(map)), xs),
        }
    }

}

impl<V: Duplicate, S: Span> Expression<V, S> {
    /// Returns an exact (deep) copy of this expression.
    pub fn deep_copy(&self) -> (r: Self)
        ensures
            copied(*self, r),
        decreases self,
    {
        match self {
            Expression::Int(x0, xs) => Expression::Int(*x0, xs.duplicate()),
            Expression::Float(x0, xs) => Expression::Float(*x0, xs.duplicate()),
            Expression::Bool(x0, xs) => Expression::Bool(*x0, xs.duplicate()),
            Expression::VarOrConst(x0, xs) => Expression::VarOrConst(x0.duplicate(), xs.duplicate()),
            Expression::Label(x0, xs) => Expression::Label(x0.duplicate(), xs.duplicate()),
            Expression::Function(x0, x1, xs) => {
                let mut out: Vec<Self> = Vec::new();
                let mut i: usize = 0;
                while i < x1.len()
                    invariant
                        i <= x1@.len(),
                        children(*self) == x1@,
                        out@.len() == i,
                        forall|j: int| 0 <= j < i ==> copied(x1@[j], out@[j]),
                    decreases x1.len() - i,
                {
                    proof {
                        lemma_children_decrease(*self, i as int);
                    }
                    out.push(x1[i].deep_copy());
                    i = i + 1;
                }
                let r = Expression::Function(x0.duplicate(), out, xs.duplicate());
                assert(children(r) == out@);
                r
            },
            Expression::Minus(x0, xs) => Expression::Minus(Box::new(x0.deep_copy()), xs.duplicate()),
            Expression::Multiplication(x0, x1, xs) => Expression::Multiplication(Box::new(x0.deep_copy()), Box::new(x1.deep_copy()), xs.duplicate()),
            Expression::Division(x0, x1, xs) => Expression::Division(Box::new(x0.deep_copy()), Box::new(x1.deep_copy()), xs.duplicate()),
            Expression::Addition(x0, x1, xs) => Expression::Addition(Box::new(x0.deep_copy()), Box::new(x1.deep_copy()), xs.duplicate()),
            Expression::Subtraction(x0, x1, xs) => Expression::Subtraction(Box::new(x0.deep_copy()), Box::new(x1.deep_copy()), xs.duplicate()),
            Expression::LessThan(x0, x1, xs) => Expression::LessThan(Box::new(x0.deep_copy()), Box::new(x1.deep_copy()), xs.duplicate()),
            Expression::LessOrEqual(x0, x1, xs) => Expression::LessOrEqual(Box::new(x0.deep_copy()), Box::new(x1.deep_copy()), xs.duplicate()),
            Expression::GreaterThan(x0, x1, xs) => Expression::GreaterThan(Box::new(x0.deep_copy()), Box::new(x1.deep_copy()), xs.duplicate()),
            Expression::GreaterOrEqual(x0, x1, xs) => Expression::GreaterOrEqual(Box::new(x0.deep_copy()), Box::new(x1.deep_copy()), xs.duplicate()),
            Expression::Equals(x0, x1, xs) => Expression::Equals(Box::new(x0.deep_copy()), Box::new(x1.deep_copy()), xs.duplicate()),
            Expression::NotEquals(x0, x1, xs) => Expression::NotEquals(Box::new(x0.deep_copy()), Box::new(x1.deep_copy()), xs.duplicate()),
            Expression::Negation(x0, xs) => Expression::Negation(Box::new(x0.deep_copy()), xs.duplicate()),
            Expression::Conjunction(x0, x1, xs) => Expression::Conjunction(Box::new(x0.deep_copy()), Box::new(x1.deep_copy()), xs.duplicate()),
            Expression::Disjunction(x0, x1, xs) => Expression::Disjunction(Box::new(x0.deep_copy()), Box::new(x1.deep_copy()), xs.duplicate()),
            Expression::IfAndOnlyIf(x0, x1, xs) => Expression::IfAndOnlyIf(Box::new(x0.deep_copy()), Box::new(x1.deep_copy()), xs.duplicate()),
            Expression::Implies(x0, x1, xs) => Expression::Implies(Box::new(x0.deep_copy()), Box::new(x1.deep_copy()), xs.duplicate()),
            Expression::Ternary(x0, x1, x2, xs) => Expression::Ternary(Box::new(x0.deep_copy()), Box::new(x1.deep_copy()), Box::new(x2.deep_copy()), xs.duplicate()),
        }
    }

}

impl<S: Span> Expression<Identifier<S>, S> {
    /// Returns a copy of this expression in which every variable is renamed according to
    /// `rename_rules`. Labels and function names are not renamed.
    pub fn renamed(&self, rename_rules: &RenameRules<S>) -> (r: Self)
        ensures
            mapped(*self, r, rename_node(rename_rules.rules@)),
        decreases self,
    {
        match self {
            Expression::Int(x0, xs) => Expression::Int(*x0, xs.duplicate()),
            Expression::Float(x0, xs) => Expression::Float(*x0, xs.duplicate()),
            Expression::Bool(x0, xs) => Expression::Bool(*x0, xs.duplicate()),
            Expression::VarOrConst(x0, xs) => Expression::VarOrConst(x0.renamed(rename_rules), xs.duplicate()),
            Expression::Label(x0, xs) => Expression::Label(x0.duplicate(), xs.duplicate()),
            Expression::Function(x0, x1, xs) => {
                let mut out: Vec<Self> = Vec::new();
                let mut i: usize = 0;
                while i < x1.len()
                    invariant
                        i <= x1@.len(),
                        children(*self) == x1@,
                        out@.len() == i,
                        forall|j: int| 0 <= j < i ==> mapped(x1@[j], out@[j], rename_node(rename_rules.rules@)),
                    decreases x1.len() - i,
                {
                    proof {
                        lemma_children_decrease(*self, i as int);
                    }
                    out.push(x1[i].renamed(rename_rules));
                    i = i + 1;
                }
                let r = Expression::Function(x0.duplicate(), out, xs.duplicate());
                assert(children(r) == out@);
                r
            },
            Expression::Minus(x0, xs) => Expression::Minus(Box::new(x0.renamed(rename_rules)), xs.duplicate()),
            Expression::Multiplication(x0, x1, xs) => Expression::Multiplication(Box::new(x0.renamed(rename_rules)), Box::new(x1.renamed(rename_rules)), xs.duplicate()),
            Expression::Division(x0, x1, xs) => Expression::Division(Box::new(x0.renamed(rename_rules)), Box::new(x1.renamed(rename_rules)), xs.duplicate()),
            Expression::Addition(x0, x1, xs) => Expression::Addition(Box::new(x0.renamed(rename_rules)), Box::new(x1.renamed(rename_rules)), xs.duplicate()),
            Expression::Subtraction(x0, x1, xs) => Expression::Subtraction(Box::new(x0.renamed(rename_rules)), Box::new(x1.renamed(rename_rules)), xs.duplicate()),
            Expression::LessThan(x0, x1, xs) => Expression::LessThan(Box::new(x0.renamed(rename_rules)), Box::new(x1.renamed(rename_rules)), xs.duplicate()),
            Expression::LessOrEqual(x0, x1, xs) => Expression::LessOrEqual(Box::new(x0.renamed(rename_rules)), Box::new(x1.renamed(rename_rules)), xs.duplicate()),
            Expression::GreaterThan(x0, x1, xs) => Expression::GreaterThan(Box::new(x0.renamed(rename_rules)), Box::new(x1.renamed(rename_rules)), xs.duplicate()),
            Expression::GreaterOrEqual(x0, x1, xs) => Expression::GreaterOrEqual(Box::new(x0.renamed(rename_rules)), Box::new(x1.renamed(rename_rules)), xs.duplicate()),
            Expression::Equals(x0, x1, xs) => Expression::Equals(Box::new(x0.renamed(rename_rules)), Box::new(x1.renamed(rename_rules)), xs.duplicate()),
            Expression::NotEquals(x0, x1, xs) => Expression::NotEquals(Box::new(x0.renamed(rename_rules)), Box::new(x1.renamed(rename_rules)), xs.duplicate()),
            Expression::Negation(x0, xs) => Expression::Negation(Box::new(x0.renamed(rename_rules)), xs.duplicate()),
            Expression::Conjunction(x0, x1, xs) => Expression::Conjunction(Box::new(x0.renamed(rename_rules)), Box::new(x1.renamed(rename_rules)), xs.duplicate()),
            Expression::Disjunction(x0, x1, xs) => Expression::Disjunction(Box::new(x0.renamed(rename_rules)), Box::new(x1.renamed(rename_rules)), xs.duplicate()),
            Expression::IfAndOnlyIf(x0, x1, xs) => Expression::IfAndOnlyIf(Box::new(x0.renamed(rename_rules)), Box::new(x1.renamed(rename_rules)), xs.duplicate()),
            Expression::Implies(x0, x1, xs) => Expression::Implies(Box::new(x0.renamed(rename_rules)), Box::new(x1.renamed(rename_rules)), xs.duplicate()),
            Expression::Ternary(x0, x1, x2, xs) => Expression::Ternary(Box::new(x0.renamed(rename_rules)), Box::new(x1.renamed(rename_rules)), Box::new(x2.renamed(rename_rules)), xs.duplicate()),
        }
    }

    /// Replaces every variable (or, if `label` is set, every label) named like `name` by a copy
    /// of `replacement`.
    #[verifier::loop_isolation(false)]
    pub fn substitute(self, name: &Identifier<S>, replacement: &Self, label: bool) -> (r: Self)
        ensures
            substituted(self, r, name.name@, *replacement, label),
        decreases self,
    {
        let ghost e0 = self;
        match self {
            Expression::Int(x0, xs) => Expression::Int(x0, xs),
            Expression::Float(x0, xs) => Expression::Float(x0, xs),
            Expression::Bool(x0, xs) => Expression::Bool(x0, xs),
            Expression::VarOrConst(x0, xs) => {
                if !label && x0 == *name {
                    replacement.deep_copy()
                } else {
                    Expression::VarOrConst(x0, xs)
                }
            },
            Expression::Label(x0, xs) => {
                if label && x0 == *name {
                    replacement.deep_copy()
                } else {
                    Expression::Label(x0, xs)
                }
            },
            Expression::Function(x0, x1, xs) => {
                let mut rest = x1;
                let mut out: Vec<Self> = Vec::new();
                let ghost orig = rest@;
                assert(orig.skip(0) =~= orig);
                while rest.len() > 0
                    invariant
                        e0 is Function,
                        children(e0) == orig,
                        out@.len() <= orig.len(),
                        rest@ == orig.skip(out@.len() as int),
                        forall|j: int| 0 <= j < out@.len() ==> substituted(orig[j], #[trigger] out@[j], name.name@, *replacement, label),
                    decreases rest.len(),
                {
                    let ghost k = out@.len() as int;
                    proof {
                        lemma_children_decrease(e0, k);
                        assert(orig.skip(k).drop_first() =~= orig.skip(k + 1));
                    }
                    let a = rest.remove(0);
                    out.push(a.substitute(name, replacement, label));
                }
                let r = Expression::Function(x0, out, xs);
                assert(children(r) == out@);
                r
            },
            Expression::Minus(x0, xs) => Expression::Minus(Box::new((*x0).substitute(name, replacement, label)), xs),
            Expression::Multiplication(x0, x1, xs) => Expression::Multiplication(Box::new((*x0).substitute(name, replacement, label)), Box::new((*x1).substitute(name, replacement, label)), xs),
            Expression::Division(x0, x1, xs) => Expression::Division(Box::new((*x0).substitute(name, replacement, label)), Box::new((*x1).substitute(name, replacement, label)), xs),
            Expression::Addition(x0, x1, xs) => Expression::Addition(Box::new((*x0).substitute(name, replacement, label)), Box::new((*x1).substitute(name, replacement, label)), xs),
            Expression::Subtraction(x0, x1, xs) => Expression::Subtraction(Box::new((*x0).substitute(name, replacement, label)), Box::new((*x1).substitute(name, replacement, label)), xs),
            Expression::LessThan(x0, x1, xs) => Expression::LessThan(Box::new((*x0).substitute(name, replacement, label)), Box::new((*x1).substitute(name, replacement, label)), xs),
            Expression::LessOrEqual(x0, x1, xs) => Expression::LessOrEqual(Box::new((*x0).substitute(name, replacement, label)), Box::new((*x1).substitute(name, replacement, label)), xs),
            Expression::GreaterThan(x0, x1, xs) => Expression::GreaterThan(Box::new((*x0).substitute(name, replacement, label)), Box::new((*x1).substitute(name, replacement, label)), xs),
            Expression::GreaterOrEqual(x0, x1, xs) => Expression::GreaterOrEqual(Box::new((*x0).substitute(name, replacement, label)), Box::new((*x1).substitute(name, replacement, label)), xs),
            Expression::Equals(x0, x1, xs) => Expression::Equals(Box::new((*x0).substitute(name, replacement, label)), Box::new((*x1).substitute(name, replacement, label)), xs),
            Expression::NotEquals(x0, x1, xs) => Expression::NotEquals(Box::new((*x0).substitute(name, replacement, label)), Box::new((*x1).substitute(name, replacement, label)), xs),
            Expression::Negation(x0, xs) => Expression::Negation(Box::new((*x0).substitute(name, replacement, label)), xs),
            Expression::Conjunction(x0, x1, xs) => Expression::Conjunction(Box::new((*x0).substitute(name, replacement, label)), Box::new((*x1).substitute(name, replacement, label)), xs),
            Expression::Disjunction(x0, x1, xs) => Expression::Disjunction(Box::new((*x0).substitute(name, replacement, label)), Box::new((*x1).substitute(name, replacement, label)), xs),
            Expression::IfAndOnlyIf(x0, x1, xs) => Expression::IfAndOnlyIf(Box::new((*x0).substitute(name, replacement, label)), Box::new((*x1).substitute(name, replacement, label)), xs),
            Expression::Implies(x0, x1, xs) => Expression::Implies(Box::new((*x0).substitute(name, replacement, label)), Box::new((*x1).substitute(name, replacement, label)), xs),
            Expression::Ternary(x0, x1, x2, xs) => Expression::Ternary(Box::new((*x0).substitute(name, replacement, label)), Box::new((*x1).substitute(name, replacement, label)), Box::new((*x2).substitute(name, replacement, label)), xs),
        }
    }
}

} // verus!
