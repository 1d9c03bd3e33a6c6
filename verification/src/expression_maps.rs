use crate::expressions::{children, lemma_children_decrease, Expression};
use crate::expressions::variable_uses;
use crate::identifier::{str_equal, Identifier};
use crate::substitution_laws::{lemma_uses_inner, uses_name};
use crate::spans::Span;
use vstd::prelude::*;

verus! {

/// A transformation of expressions, applied by [`Expression::visit`], which produces a value of
/// type `T` for each node from the node's own data and the values already produced for its
/// children.
///
/// `T` may be an expression type, to rewrite an expression, or any other type, to gather
/// information about it; the implementor may also keep state of its own, which every step may
/// change. Each `visit_*` method has a step function beside it that says what it does: the
/// state it leaves and the value it returns, as a function of the state it finds and its
/// arguments.
pub trait MapExpression<V, S: Span, T>: Sized {
    /// The state after visiting the integer literal `val` with span `span`, and the value produced.
    spec fn int_step(&self, val: i64, span: S) -> (Self, T);

    /// Visits the integer literal `val` with span `span`.
    fn visit_int(&mut self, val: i64, span: S) -> (r: T)
        ensures
            (*final(self), r) == old(self).int_step(val, span),
    ;

    /// The state after visiting the floating-point literal with bit pattern `bits` with span `span`, and the value produced.
    spec fn float_step(&self, bits: u64, span: S) -> (Self, T);

    /// Visits the floating-point literal with bit pattern `bits` with span `span`.
    fn visit_float(&mut self, bits: u64, span: S) -> (r: T)
        ensures
            (*final(self), r) == old(self).float_step(bits, span),
    ;

    /// The state after visiting the boolean literal `val` with span `span`, and the value produced.
    spec fn bool_step(&self, val: bool, span: S) -> (Self, T);

    /// Visits the boolean literal `val` with span `span`.
    fn visit_bool(&mut self, val: bool, span: S) -> (r: T)
        ensures
            (*final(self), r) == old(self).bool_step(val, span),
    ;

    /// The state after visiting the variable or constant `name` with span `span`, and the value produced.
    spec fn var_or_const_step(&self, name: V, span: S) -> (Self, T);

    /// Visits the variable or constant `name` with span `span`.
    fn visit_var_or_const(&mut self, name: V, span: S) -> (r: T)
        ensures
            (*final(self), r) == old(self).var_or_const_step(name, span),
    ;

    /// The state after visiting the label `name` with span `span`, and the value produced.
    spec fn label_step(&self, name: V, span: S) -> (Self, T);

    /// Visits the label `name` with span `span`.
    fn visit_label(&mut self, name: V, span: S) -> (r: T)
        ensures
            (*final(self), r) == old(self).label_step(name, span),
    ;

    /// The state after visiting a call of the function `identifier` whose arguments gave
    /// `arguments`, with span `span`, and the value produced.
    spec fn function_step(&self, identifier: Identifier<S>, arguments: Seq<T>, span: S) -> (Self, T);

    /// Visits a call of the function `identifier`, given the values produced for its arguments.
    fn visit_function(&mut self, identifier: Identifier<S>, arguments: Vec<T>, span: S) -> (r: T)
        ensures
            (*final(self), r) == old(self).function_step(identifier, arguments@, span),
    ;

    /// The state after visiting `-inner`, given the value `inner` produced for `inner`, and the
    /// value produced.
    spec fn minus_step(&self, inner: T, span: S) -> (Self, T);

    /// Visits `-inner`, given the value produced for `inner`.
    fn visit_minus(&mut self, inner: T, span: S) -> (r: T)
        ensures
            (*final(self), r) == old(self).minus_step(inner, span),
    ;

    /// The state after visiting `!inner`, given the value `inner` produced for `inner`, and the
    /// value produced.
    spec fn negation_step(&self, inner: T, span: S) -> (Self, T);

    /// Visits `!inner`, given the value produced for `inner`.
    fn visit_negation(&mut self, inner: T, span: S) -> (r: T)
        ensures
            (*final(self), r) == old(self).negation_step(inner, span),
    ;

    /// The state after visiting `left*right`, given the values produced for its operands, and the
    /// value produced.
    spec fn multiplication_step(&self, left: T, right: T, span: S) -> (Self, T);

    /// Visits `left*right`, given the values produced for its operands.
    fn visit_multiplication(&mut self, left: T, right: T, span: S) -> (r: T)
        ensures
            (*final(self), r) == old(self).multiplication_step(left, right, span),
    ;

    /// The state after visiting `left/right`, given the values produced for its operands, and the
    /// value produced.
    spec fn division_step(&self, left: T, right: T, span: S) -> (Self, T);

    /// Visits `left/right`, given the values produced for its operands.
    fn visit_division(&mut self, left: T, right: T, span: S) -> (r: T)
        ensures
            (*final(self), r) == old(self).division_step(left, right, span),
    ;

    /// The state after visiting `left+right`, given the values produced for its operands, and the
    /// value produced.
    spec fn addition_step(&self, left: T, right: T, span: S) -> (Self, T);

    /// Visits `left+right`, given the values produced for its operands.
    fn visit_addition(&mut self, left: T, right: T, span: S) -> (r: T)
        ensures
            (*final(self), r) == old(self).addition_step(left, right, span),
    ;

    /// The state after visiting `left-right`, given the values produced for its operands, and the
    /// value produced.
    spec fn subtraction_step(&self, left: T, right: T, span: S) -> (Self, T);

    /// Visits `left-right`, given the values produced for its operands.
    fn visit_subtraction(&mut self, left: T, right: T, span: S) -> (r: T)
        ensures
            (*final(self), r) == old(self).subtraction_step(left, right, span),
    ;

    /// The state after visiting `left<right`, given the values produced for its operands, and the
    /// value produced.
    spec fn less_than_step(&self, left: T, right: T, span: S) -> (Self, T);

    /// Visits `left<right`, given the values produced for its operands.
    fn visit_less_than(&mut self, left: T, right: T, span: S) -> (r: T)
        ensures
            (*final(self), r) == old(self).less_than_step(left, right, span),
    ;

    /// The state after visiting `left<=right`, given the values produced for its operands, and the
    /// value produced.
    spec fn less_or_equal_step(&self, left: T, right: T, span: S) -> (Self, T);

    /// Visits `left<=right`, given the values produced for its operands.
    fn visit_less_or_equal(&mut self, left: T, right: T, span: S) -> (r: T)
        ensures
            (*final(self), r) == old(self).less_or_equal_step(left, right, span),
    ;

    /// The state after visiting `left>right`, given the values produced for its operands, and the
    /// value produced.
    spec fn greater_than_step(&self, left: T, right: T, span: S) -> (Self, T);

    /// Visits `left>right`, given the values produced for its operands.
    fn visit_greater_than(&mut self, left: T, right: T, span: S) -> (r: T)
        ensures
            (*final(self), r) == old(self).greater_than_step(left, right, span),
    ;

    /// The state after visiting `left>=right`, given the values produced for its operands, and the
    /// value produced.
    spec fn greater_or_equal_step(&self, left: T, right: T, span: S) -> (Self, T);

    /// Visits `left>=right`, given the values produced for its operands.
    fn visit_greater_or_equal(&mut self, left: T, right: T, span: S) -> (r: T)
        ensures
            (*final(self), r) == old(self).greater_or_equal_step(left, right, span),
    ;

    /// The state after visiting `left=right`, given the values produced for its operands, and the
    /// value produced.
    spec fn equals_step(&self, left: T, right: T, span: S) -> (Self, T);

    /// Visits `left=right`, given the values produced for its operands.
    fn visit_equals(&mut self, left: T, right: T, span: S) -> (r: T)
        ensures
            (*final(self), r) == old(self).equals_step(left, right, span),
    ;

    /// The state after visiting `left!=right`, given the values produced for its operands, and the
    /// value produced.
    spec fn not_equals_step(&self, left: T, right: T, span: S) -> (Self, T);

    /// Visits `left!=right`, given the values produced for its operands.
    fn visit_not_equals(&mut self, left: T, right: T, span: S) -> (r: T)
        ensures
            (*final(self), r) == old(self).not_equals_step(left, right, span),
    ;

    /// The state after visiting `left&right`, given the values produced for its operands, and the
    /// value produced.
    spec fn conjunction_step(&self, left: T, right: T, span: S) -> (Self, T);

    /// Visits `left&right`, given the values produced for its operands.
    fn visit_conjunction(&mut self, left: T, right: T, span: S) -> (r: T)
        ensures
            (*final(self), r) == old(self).conjunction_step(left, right, span),
    ;

    /// The state after visiting `left|right`, given the values produced for its operands, and the
    /// value produced.
    spec fn disjunction_step(&self, left: T, right: T, span: S) -> (Self, T);

    /// Visits `left|right`, given the values produced for its operands.
    fn visit_disjunction(&mut self, left: T, right: T, span: S) -> (r: T)
        ensures
            (*final(self), r) == old(self).disjunction_step(left, right, span),
    ;

    /// The state after visiting `left<=>right`, given the values produced for its operands, and the
    /// value produced.
    spec fn if_and_only_if_step(&self, left: T, right: T, span: S) -> (Self, T);

    /// Visits `left<=>right`, given the values produced for its operands.
    fn visit_if_and_only_if(&mut self, left: T, right: T, span: S) -> (r: T)
        ensures
            (*final(self), r) == old(self).if_and_only_if_step(left, right, span),
    ;

    /// The state after visiting `left=>right`, given the values produced for its operands, and the
    /// value produced.
    spec fn implies_step(&self, left: T, right: T, span: S) -> (Self, T);

    /// Visits `left=>right`, given the values produced for its operands.
    fn visit_implies(&mut self, left: T, right: T, span: S) -> (r: T)
        ensures
            (*final(self), r) == old(self).implies_step(left, right, span),
    ;

    /// The state after visiting `condition ? left : right`, given the values produced for its
    /// parts, and the value produced.
    spec fn ternary_step(&self, condition: T, left: T, right: T, span: S) -> (Self, T);

    /// Visits `condition ? left : right`, given the values produced for its parts.
    fn visit_ternary(&mut self, condition: T, left: T, right: T, span: S) -> (r: T)
        ensures
            (*final(self), r) == old(self).ternary_step(condition, left, right, span),
    ;
}

/// What visiting `e` with `m` in the state `m` leaves and produces: the children are visited
/// first, from left to right, each in the state the one before left, and then the node itself.
pub open spec fn visit_spec<V, S: Span, T, M: MapExpression<V, S, T>>(e: Expression<V, S>, m: M) -> (M, T)
    decreases e, children(e).len() + 1,
{
    match e {
        Expression::Int(x, s) => m.int_step(x, s),
        Expression::Float(x, s) => m.float_step(x, s),
        Expression::Bool(x, s) => m.bool_step(x, s),
        Expression::VarOrConst(x, s) => m.var_or_const_step(x, s),
        Expression::Label(x, s) => m.label_step(x, s),
        Expression::Function(id, _, s) => {
            let (m1, ts) = visit_args_spec(e, children(e).len() as int, m);
            m1.function_step(id, ts, s)
        },
        Expression::Minus(x, s) => {
            let (m1, a) = visit_spec(*x, m);
            m1.minus_step(a, s)
        },
        Expression::Negation(x, s) => {
            let (m1, a) = visit_spec(*x, m);
            m1.negation_step(a, s)
        },
        Expression::Multiplication(x, y, s) => {
            let (m1, a) = visit_spec(*x, m);
            let (m2, b) = visit_spec(*y, m1);
            m2.multiplication_step(a, b, s)
        },
        Expression::Division(x, y, s) => {
            let (m1, a) = visit_spec(*x, m);
            let (m2, b) = visit_spec(*y, m1);
            m2.division_step(a, b, s)
        },
        Expression::Addition(x, y, s) => {
            let (m1, a) = visit_spec(*x, m);
            let (m2, b) = visit_spec(*y, m1);
            m2.addition_step(a, b, s)
        },
        Expression::Subtraction(x, y, s) => {
            let (m1, a) = visit_spec(*x, m);
            let (m2, b) = visit_spec(*y, m1);
            m2.subtraction_step(a, b, s)
        },
        Expression::LessThan(x, y, s) => {
            let (m1, a) = visit_spec(*x, m);
            let (m2, b) = visit_spec(*y, m1);
            m2.less_than_step(a, b, s)
        },
        Expression::LessOrEqual(x, y, s) => {
            let (m1, a) = visit_spec(*x, m);
            let (m2, b) = visit_spec(*y, m1);
            m2.less_or_equal_step(a, b, s)
        },
        Expression::GreaterThan(x, y, s) => {
            let (m1, a) = visit_spec(*x, m);
            let (m2, b) = visit_spec(*y, m1);
            m2.greater_than_step(a, b, s)
        },
        Expression::GreaterOrEqual(x, y, s) => {
            let (m1, a) = visit_spec(*x, m);
            let (m2, b) = visit_spec(*y, m1);
            m2.greater_or_equal_step(a, b, s)
        },
        Expression::Equals(x, y, s) => {
            let (m1, a) = visit_spec(*x, m);
            let (m2, b) = visit_spec(*y, m1);
            m2.equals_step(a, b, s)
        },
        Expression::NotEquals(x, y, s) => {
            let (m1, a) = visit_spec(*x, m);
            let (m2, b) = visit_spec(*y, m1);
            m2.not_equals_step(a, b, s)
        },
        Expression::Conjunction(x, y, s) => {
            let (m1, a) = visit_spec(*x, m);
            let (m2, b) = visit_spec(*y, m1);
            m2.conjunction_step(a, b, s)
        },
        Expression::Disjunction(x, y, s) => {
            let (m1, a) = visit_spec(*x, m);
            let (m2, b) = visit_spec(*y, m1);
            m2.disjunction_step(a, b, s)
        },
        Expression::IfAndOnlyIf(x, y, s) => {
            let (m1, a) = visit_spec(*x, m);
            let (m2, b) = visit_spec(*y, m1);
            m2.if_and_only_if_step(a, b, s)
        },
        Expression::Implies(x, y, s) => {
            let (m1, a) = visit_spec(*x, m);
            let (m2, b) = visit_spec(*y, m1);
            m2.implies_step(a, b, s)
        },
        Expression::Ternary(x, y, z, s) => {
            let (m1, a) = visit_spec(*x, m);
            let (m2, b) = visit_spec(*y, m1);
            let (m3, c) = visit_spec(*z, m2);
            m3.ternary_step(a, b, c, s)
        },
    }
}

/// What visiting the first `n` children of `e` in turn, starting in the state `m`, leaves and
/// produces.
pub open spec fn visit_args_spec<V, S: Span, T, M: MapExpression<V, S, T>>(
    e: Expression<V, S>,
    n: int,
    m: M,
) -> (M, Seq<T>)
    decreases e, n,
{
    if n <= 0 || n > children(e).len() {
        (m, Seq::empty())
    } else {
        let (m1, ts) = visit_args_spec(e, n - 1, m);
        proof {
            lemma_children_decrease(e, n - 1);
        }
        let (m2, t) = visit_spec(children(e)[n - 1], m1);
        (m2, ts.push(t))
    }
}

impl<V, S: Span> Expression<V, S> {
    /// Traverses the expression depth first and applies `m` to each node: the children of a node
    /// are visited before it, from left to right, and the values they produced are handed to
    /// the node's `visit_*` method (see [`visit_spec`]).
    #[verifier::loop_isolation(false)]
    pub fn visit<T, M: MapExpression<V, S, T>>(self, m: &mut M) -> (r: T)
        ensures
            (*final(m), r) == visit_spec(self, *old(m)),
        decreases self,
    {
        let ghost e0 = self;
        match self {
            Expression::Int(x, s) => m.visit_int(x, s),
            Expression::Float(x, s) => m.visit_float(x, s),
            Expression::Bool(x, s) => m.visit_bool(x, s),
            Expression::VarOrConst(x, s) => m.visit_var_or_const(x, s),
            Expression::Label(x, s) => m.visit_label(x, s),
            Expression::Function(id, args, s) => {
                let ghost m0 = *m;
                let mut rest = args;
                let mut out: Vec<T> = Vec::new();
                let ghost orig = rest@;
                assert(orig.skip(0) =~= orig);
                while rest.len() > 0
                    invariant
                        e0 is Function,
                        children(e0) == orig,
                        out@.len() <= orig.len(),
                        rest@ == orig.skip(out@.len() as int),
                        visit_args_spec::<V, S, T, M>(e0, out@.len() as int, m0) == (*m, out@),
                    decreases rest.len(),
                {
                    let ghost k = out@.len() as int;
                    proof {
                        lemma_children_decrease(e0, k);
                        assert(orig.skip(k).drop_first() =~= orig.skip(k + 1));
                    }
                    let a = rest.remove(0);
                    assert(a == children(e0)[k]);
                    let t = a.visit(m);
                    out.push(t);
                }
                m.visit_function(id, out, s)
            },
            Expression::Minus(x, s) => {
                let a = (*x).visit(m);
                m.visit_minus(a, s)
            },
            Expression::Negation(x, s) => {
                let a = (*x).visit(m);
                m.visit_negation(a, s)
            },
            Expression::Multiplication(x, y, s) => {
                let a = (*x).visit(m);
                let b = (*y).visit(m);
                m.visit_multiplication(a, b, s)
            },
            Expression::Division(x, y, s) => {
                let a = (*x).visit(m);
                let b = (*y).visit(m);
                m.visit_division(a, b, s)
            },
            Expression::Addition(x, y, s) => {
                let a = (*x).visit(m);
                let b = (*y).visit(m);
                m.visit_addition(a, b, s)
            },
            Expression::Subtraction(x, y, s) => {
                let a = (*x).visit(m);
                let b = (*y).visit(m);
                m.visit_subtraction(a, b, s)
            },
            Expression::LessThan(x, y, s) => {
                let a = (*x).visit(m);
                let b = (*y).visit(m);
                m.visit_less_than(a, b, s)
            },
            Expression::LessOrEqual(x, y, s) => {
                let a = (*x).visit(m);
                let b = (*y).visit(m);
                m.visit_less_or_equal(a, b, s)
            },
            Expression::GreaterThan(x, y, s) => {
                let a = (*x).visit(m);
                let b = (*y).visit(m);
                m.visit_greater_than(a, b, s)
            },
            Expression::GreaterOrEqual(x, y, s) => {
                let a = (*x).visit(m);
                let b = (*y).visit(m);
                m.visit_greater_or_equal(a, b, s)
            },
            Expression::Equals(x, y, s) => {
                let a = (*x).visit(m);
                let b = (*y).visit(m);
                m.visit_equals(a, b, s)
            },
            Expression::NotEquals(x, y, s) => {
                let a = (*x).visit(m);
                let b = (*y).visit(m);
                m.visit_not_equals(a, b, s)
            },
            Expression::Conjunction(x, y, s) => {
                let a = (*x).visit(m);
                let b = (*y).visit(m);
                m.visit_conjunction(a, b, s)
            },
            Expression::Disjunction(x, y, s) => {
                let a = (*x).visit(m);
                let b = (*y).visit(m);
                m.visit_disjunction(a, b, s)
            },
            Expression::IfAndOnlyIf(x, y, s) => {
                let a = (*x).visit(m);
                let b = (*y).visit(m);
                m.visit_if_and_only_if(a, b, s)
            },
            Expression::Implies(x, y, s) => {
                let a = (*x).visit(m);
                let b = (*y).visit(m);
                m.visit_implies(a, b, s)
            },
            Expression::Ternary(x, y, z, s) => {
                let a = (*x).visit(m);
                let b = (*y).visit(m);
                let c = (*z).visit(m);
                m.visit_ternary(a, b, c, s)
            },
        }
    }
}


/// A visitor that finds out whether an expression uses the variable, constant or formula named
/// `name` (labels are not variables). It produces `true` exactly for the nodes under which such
/// a use stands, and keeps no other state.
pub struct VariableFinder {
    /// The name looked for.
    pub name: String,
}

impl VariableFinder {
    /// A finder for the name `name`.
    pub fn new(name: &str) -> (r: Self)
        ensures
            r.name@ == name@,
    {
        VariableFinder { name: name.to_string() }
    }
}

impl<S: Span> MapExpression<Identifier<S>, S, bool> for VariableFinder {
    open spec fn int_step(&self, val: i64, span: S) -> (Self, bool) {
        (*self, false)
    }

    fn visit_int(&mut self, val: i64, span: S) -> (r: bool) {
        false
    }

    open spec fn float_step(&self, bits: u64, span: S) -> (Self, bool) {
        (*self, false)
    }

    fn visit_float(&mut self, bits: u64, span: S) -> (r: bool) {
        false
    }

    open spec fn bool_step(&self, val: bool, span: S) -> (Self, bool) {
        (*self, false)
    }

    fn visit_bool(&mut self, val: bool, span: S) -> (r: bool) {
        false
    }

    open spec fn label_step(&self, name: Identifier<S>, span: S) -> (Self, bool) {
        (*self, false)
    }

    fn visit_label(&mut self, name: Identifier<S>, span: S) -> (r: bool) {
        false
    }

    open spec fn var_or_const_step(&self, name: Identifier<S>, span: S) -> (Self, bool) {
        (*self, name.name@ == self.name@)
    }

    fn visit_var_or_const(&mut self, name: Identifier<S>, span: S) -> (r: bool) {
        str_equal(name.name.as_str(), self.name.as_str())
    }

    open spec fn function_step(&self, identifier: Identifier<S>, arguments: Seq<bool>, span: S) -> (Self, bool) {
        (*self, exists|i: int| 0 <= i < arguments.len() && #[trigger] arguments[i])
    }

    fn visit_function(&mut self, identifier: Identifier<S>, arguments: Vec<bool>, span: S) -> (r: bool) {
        let mut i: usize = 0;
        while i < arguments.len()
            invariant
                i <= arguments@.len(),
                forall|j: int| 0 <= j < i ==> !#[trigger] arguments@[j],
            decreases arguments@.len() - i,
        {
            if arguments[i] {
                return true;
            }
            i = i + 1;
        }
        false
    }

    open spec fn minus_step(&self, inner: bool, span: S) -> (Self, bool) {
        (*self, inner)
    }

    fn visit_minus(&mut self, inner: bool, span: S) -> (r: bool) {
        inner
    }

    open spec fn negation_step(&self, inner: bool, span: S) -> (Self, bool) {
        (*self, inner)
    }

    fn visit_negation(&mut self, inner: bool, span: S) -> (r: bool) {
        inner
    }

    open spec fn multiplication_step(&self, left: bool, right: bool, span: S) -> (Self, bool) {
        (*self, left || right)
    }

    fn visit_multiplication(&mut self, left: bool, right: bool, span: S) -> (r: bool) {
        left || right
    }

    open spec fn division_step(&self, left: bool, right: bool, span: S) -> (Self, bool) {
        (*self, left || right)
    }

    fn visit_division(&mut self, left: bool, right: bool, span: S) -> (r: bool) {
        left || right
    }

    open spec fn addition_step(&self, left: bool, right: bool, span: S) -> (Self, bool) {
        (*self, left || right)
    }

    fn visit_addition(&mut self, left: bool, right: bool, span: S) -> (r: bool) {
        left || right
    }

    open spec fn subtraction_step(&self, left: bool, right: bool, span: S) -> (Self, bool) {
        (*self, left || right)
    }

    fn visit_subtraction(&mut self, left: bool, right: bool, span: S) -> (r: bool) {
        left || right
    }

    open spec fn less_than_step(&self, left: bool, right: bool, span: S) -> (Self, bool) {
        (*self, left || right)
    }

    fn visit_less_than(&mut self, left: bool, right: bool, span: S) -> (r: bool) {
        left || right
    }

    open spec fn less_or_equal_step(&self, left: bool, right: bool, span: S) -> (Self, bool) {
        (*self, left || right)
    }

    fn visit_less_or_equal(&mut self, left: bool, right: bool, span: S) -> (r: bool) {
        left || right
    }

    open spec fn greater_than_step(&self, left: bool, right: bool, span: S) -> (Self, bool) {
        (*self, left || right)
    }

    fn visit_greater_than(&mut self, left: bool, right: bool, span: S) -> (r: bool) {
        left || right
    }

    open spec fn greater_or_equal_step(&self, left: bool, right: bool, span: S) -> (Self, bool) {
        (*self, left || right)
    }

    fn visit_greater_or_equal(&mut self, left: bool, right: bool, span: S) -> (r: bool) {
        left || right
    }

    open spec fn equals_step(&self, left: bool, right: bool, span: S) -> (Self, bool) {
        (*self, left || right)
    }

    fn visit_equals(&mut self, left: bool, right: bool, span: S) -> (r: bool) {
        left || right
    }

    open spec fn not_equals_step(&self, left: bool, right: bool, span: S) -> (Self, bool) {
        (*self, left || right)
    }

    fn visit_not_equals(&mut self, left: bool, right: bool, span: S) -> (r: bool) {
        left || right
    }

    open spec fn conjunction_step(&self, left: bool, right: bool, span: S) -> (Self, bool) {
        (*self, left || right)
    }

    fn visit_conjunction(&mut self, left: bool, right: bool, span: S) -> (r: bool) {
        left || right
    }

    open spec fn disjunction_step(&self, left: bool, right: bool, span: S) -> (Self, bool) {
        (*self, left || right)
    }

    fn visit_disjunction(&mut self, left: bool, right: bool, span: S) -> (r: bool) {
        left || right
    }

    open spec fn if_and_only_if_step(&self, left: bool, right: bool, span: S) -> (Self, bool) {
        (*self, left || right)
    }

    fn visit_if_and_only_if(&mut self, left: bool, right: bool, span: S) -> (r: bool) {
        left || right
    }

    open spec fn implies_step(&self, left: bool, right: bool, span: S) -> (Self, bool) {
        (*self, left || right)
    }

    fn visit_implies(&mut self, left: bool, right: bool, span: S) -> (r: bool) {
        left || right
    }

    open spec fn ternary_step(&self, condition: bool, left: bool, right: bool, span: S) -> (Self, bool) {
        (*self, condition || left || right)
    }

    fn visit_ternary(&mut self, condition: bool, left: bool, right: bool, span: S) -> (r: bool) {
        condition || left || right
    }
}

proof fn lemma_finder_args<S: Span>(e: Expression<Identifier<S>, S>, n: int, f: VariableFinder)
    requires
        0 <= n <= children(e).len(),
    ensures
        visit_args_spec(e, n, f).0 == f,
        visit_args_spec(e, n, f).1.len() == n,
        forall|j: int|
            0 <= j < n ==> #[trigger] visit_args_spec(e, n, f).1[j] == uses_name(
                variable_uses(children(e)[j]),
                f.name@,
            ),
    decreases e, n,
{
    if n > 0 {
        lemma_finder_args(e, n - 1, f);
        lemma_children_decrease(e, n - 1);
        law_variable_finder(children(e)[n - 1], f);
        let prev = visit_args_spec(e, n - 1, f).1;
        assert forall|j: int| 0 <= j < n implies #[trigger] visit_args_spec(e, n, f).1[j] == uses_name(
            variable_uses(children(e)[j]),
            f.name@,
        ) by {
            if j < n - 1 {
                assert(visit_args_spec(e, n, f).1[j] == prev[j]);
            }
        }
    }
}

/// Visiting an expression with a [`VariableFinder`] leaves the finder as it was and gives
/// `true` exactly when some variable, constant or formula used in the expression has the name
/// looked for.
pub proof fn law_variable_finder<S: Span>(e: Expression<Identifier<S>, S>, f: VariableFinder)
    ensures
        visit_spec(e, f) == (f, uses_name(variable_uses(e), f.name@)),
    decreases e, children(e).len() + 1,
{
    let m = f.name@;
    match e {
        Expression::VarOrConst(x, s) => {
            if uses_name(variable_uses(e), m) {
                let k = choose|k: int| 0 <= k < variable_uses(e).len() && #[trigger] variable_uses(e)[k].0.name@ == m;
                assert(k == 0);
            }
            if x.name@ == m {
                assert(variable_uses(e)[0].0.name@ == m);
            }
        },
        Expression::Label(..) => {
            assert(variable_uses(e).len() == 0);
        },
        Expression::Int(..) | Expression::Float(..) | Expression::Bool(..) => {
            lemma_uses_inner(e, m);
        },
        _ => {
            lemma_uses_inner(e, m);
            assert forall|j: int| 0 <= j < children(e).len() implies visit_spec(#[trigger] children(e)[j], f) == (
                f,
                uses_name(variable_uses(children(e)[j]), m),
            ) by {
                lemma_children_decrease(e, j);
                law_variable_finder(children(e)[j], f);
            }
            if e is Function {
                lemma_finder_args(e, children(e).len() as int, f);
                let ts = visit_args_spec(e, children(e).len() as int, f).1;
                if uses_name(variable_uses(e), m) {
                    let j = choose|j: int| 0 <= j < children(e).len() && #[trigger] uses_name(variable_uses(children(e)[j]), m);
                    assert(ts[j]);
                }
            }
        },
    }
}

} // verus!
