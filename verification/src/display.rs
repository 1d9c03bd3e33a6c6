//! Text forms of PRISM components, in PRISM syntax.
//!
//! Some components need context to be written out: an expression over
//! [`VariableReference`]s needs the [`VariableManager`] that holds the variables' names.
//! Floating-point literals are written by a formatter that the caller supplies, which gives the
//! text of a literal from its bit pattern.
use crate::expressions::{children, lemma_children_decrease, precedence, Expression};
use crate::identifier::Identifier;
use crate::spans::Span;
use crate::text::{decimal, decimal_text, int_decimal, int_text};
use crate::command::{Assignment, Command, Update};
use crate::formulas::{Formula, FormulaManager};
use crate::labels::{Label, LabelManager};
use crate::model::{Model, ModelType};
use crate::module::{Module, RenameRule, RenamedModule};
use crate::rewards::{Rewards, RewardsElement, RewardsTarget};
use crate::variables::{
    style_accepts, VariableAddError, VariableInfo, VariableManager, VariablePrintingStyle, VariableRange,
    VariableReference,
};
use vstd::prelude::*;
use vstd::string::StringExecFns;

verus! {

/// `floats` accepts every bit pattern and gives one text for each.
pub open spec fn formats_floats<G: Fn(u64) -> String>(floats: G) -> bool {
    &&& forall|b: u64| #[trigger] call_requires(floats, (b,))
    &&& forall|b: u64, s1: String, s2: String|
        #![trigger call_ensures(floats, (b,), s1), call_ensures(floats, (b,), s2)]
        call_ensures(floats, (b,), s1) && call_ensures(floats, (b,), s2) ==> s1@ == s2@
}

/// The text that `floats` gives for each bit pattern.
pub open spec fn float_texts<G: Fn(u64) -> String>(floats: G) -> spec_fn(u64) -> Seq<char> {
    |b: u64| (choose|s: String| call_ensures(floats, (b,), s))@
}

/// The text of the floating-point literal with bit pattern `bits`.
fn float_text<G: Fn(u64) -> String>(floats: &G, bits: u64) -> (r: String)
    requires
        formats_floats(*floats),
    ensures
        r@ == float_texts(*floats)(bits),
{
    let r = floats(bits);
    proof {
        let c = choose|s: String| call_ensures(*floats, (bits,), s);
        assert(call_ensures(*floats, (bits,), c));
    }
    r
}

/// A component that can be written out given a context of type `Ctx`.
pub trait Displayable<Ctx>: Sized {
    /// Whether the context holds what is needed to write out `self`.
    spec fn displayable_in(&self, context: &Ctx) -> bool;

    /// The text of `self`, with floating-point literals written by `floats`.
    spec fn display_text(&self, context: &Ctx, floats: spec_fn(u64) -> Seq<char>) -> Seq<char>;

    /// Writes out `self`, with floating-point literals written by `floats`.
    fn text<G: Fn(u64) -> String>(&self, context: &Ctx, floats: &G) -> (r: String)
        requires
            self.displayable_in(context),
            formats_floats(*floats),
        ensures
            r@ == self.display_text(context, float_texts(*floats)),
    ;
}

impl<S: Span, Ctx> Displayable<Ctx> for Identifier<S> {
    open spec fn displayable_in(&self, context: &Ctx) -> bool {
        true
    }

    open spec fn display_text(&self, context: &Ctx, floats: spec_fn(u64) -> Seq<char>) -> Seq<char> {
        self.name@
    }

    fn text<G: Fn(u64) -> String>(&self, context: &Ctx, floats: &G) -> (r: String) {
        self.name.clone()
    }
}

impl<S: Span> Displayable<VariableManager<S, Expression<VariableReference, S>>> for VariableReference {
    open spec fn displayable_in(&self, context: &VariableManager<S, Expression<VariableReference, S>>) -> bool {
        self.index < context.variables@.len()
    }

    open spec fn display_text(
        &self,
        context: &VariableManager<S, Expression<VariableReference, S>>,
        floats: spec_fn(u64) -> Seq<char>,
    ) -> Seq<char> {
        context.variables@[self.index as int].name.name@
    }

    fn text<G: Fn(u64) -> String>(
        &self,
        context: &VariableManager<S, Expression<VariableReference, S>>,
        floats: &G,
    ) -> (r: String) {
        context.variables[self.index].name.name.clone()
    }
}

/// Wraps `inner` in parentheses when the surrounding operator binds tighter than `p`.
pub open spec fn parenthesised(inner: Seq<char>, surrounding: int, p: int) -> Seq<char> {
    if surrounding > p {
        "("@ + inner + ")"@
    } else {
        inner
    }
}

/// The text of an expression that stands where an operator of precedence `surrounding` binds:
/// the expression is put in parentheses when its own operator binds less tightly. Left operands
/// are written at the operator's precedence, right operands (and the operand of `!` and all
/// parts of `? :`) one higher, so that operators of equal precedence group to the left.
pub open spec fn expression_text<V: Displayable<Ctx>, S: Span, Ctx>(
    e: Expression<V, S>,
    surrounding: int,
    context: Ctx,
    floats: spec_fn(u64) -> Seq<char>,
) -> Seq<char>
    decreases e, children(e).len() + 1,
{
    let p = precedence(e) as int;
    let inner = match e {
        Expression::Int(v, _) => int_decimal(v as int),
        Expression::Float(b, _) => floats(b),
        Expression::Bool(b, _) => if b {
            "true"@
        } else {
            "false"@
        },
        Expression::VarOrConst(v, _) => v.display_text(&context, floats),
        Expression::Label(v, _) => "\""@ + v.display_text(&context, floats) + "\""@,
        Expression::Function(name, _, _) => name.name@ + "("@ + arguments_text(e, 0, context, floats)
            + ")"@,
        Expression::Minus(a, _) => "-"@ + expression_text(*a, p, context, floats),
        Expression::Multiplication(a, b, _) => expression_text(*a, p, context, floats) + "*"@
            + expression_text(*b, p + 1, context, floats),
        Expression::Division(a, b, _) => expression_text(*a, p, context, floats) + "/"@
            + expression_text(*b, p + 1, context, floats),
        Expression::Addition(a, b, _) => expression_text(*a, p, context, floats) + "+"@
            + expression_text(*b, p + 1, context, floats),
        Expression::Subtraction(a, b, _) => expression_text(*a, p, context, floats) + "-"@
            + expression_text(*b, p + 1, context, floats),
        Expression::LessThan(a, b, _) => expression_text(*a, p, context, floats) + "<"@
            + expression_text(*b, p + 1, context, floats),
        Expression::LessOrEqual(a, b, _) => expression_text(*a, p, context, floats) + "<="@
            + expression_text(*b, p + 1, context, floats),
        Expression::GreaterThan(a, b, _) => expression_text(*a, p, context, floats) + ">"@
            + expression_text(*b, p + 1, context, floats),
        Expression::GreaterOrEqual(a, b, _) => expression_text(*a, p, context, floats) + ">="@
            + expression_text(*b, p + 1, context, floats),
        Expression::Equals(a, b, _) => expression_text(*a, p, context, floats) + "="@
            + expression_text(*b, p + 1, context, floats),
        Expression::NotEquals(a, b, _) => expression_text(*a, p, context, floats) + "!="@
            + expression_text(*b, p + 1, context, floats),
        Expression::Negation(a, _) => "!"@ + expression_text(*a, p + 1, context, floats),
        Expression::Conjunction(a, b, _) => expression_text(*a, p, context, floats) + "&"@
            + expression_text(*b, p + 1, context, floats),
        Expression::Disjunction(a, b, _) => expression_text(*a, p, context, floats) + "|"@
            + expression_text(*b, p + 1, context, floats),
        Expression::IfAndOnlyIf(a, b, _) => expression_text(*a, p, context, floats) + "<=>"@
            + expression_text(*b, p + 1, context, floats),
        Expression::Implies(a, b, _) => expression_text(*a, p, context, floats) + "=>"@
            + expression_text(*b, p + 1, context, floats),
        Expression::Ternary(c, a, b, _) => expression_text(*c, p + 1, context, floats) + "?"@
            + expression_text(*a, p + 1, context, floats) + ":"@ + expression_text(
            *b,
            p + 1,
            context,
            floats,
        ),
    };
    parenthesised(inner, surrounding, p)
}

/// The text of the arguments of a function call from position `i` on, separated by `, `.
pub open spec fn arguments_text<V: Displayable<Ctx>, S: Span, Ctx>(
    e: Expression<V, S>,
    i: int,
    context: Ctx,
    floats: spec_fn(u64) -> Seq<char>,
) -> Seq<char>
    decreases e, children(e).len() - i,
{
    if 0 <= i < children(e).len() {
        proof {
            lemma_children_decrease(e, i);
        }
        (if i > 0 {
            ", "@
        } else {
            seq![]
        }) + expression_text(children(e)[i], 0, context, floats) + arguments_text(
            e,
            i + 1,
            context,
            floats,
        )
    } else {
        seq![]
    }
}

/// Every variable and label of the expression can be written out in the context.
pub open spec fn expression_displayable<V: Displayable<Ctx>, S: Span, Ctx>(
    e: Expression<V, S>,
    context: Ctx,
) -> bool
    decreases e, children(e).len() + 1,
{
    match e {
        Expression::VarOrConst(v, _) => v.displayable_in(&context),
        Expression::Label(v, _) => v.displayable_in(&context),
        _ => children_displayable(e, 0, context),
    }
}

/// The direct subexpressions of `e` from position `i` on can be written out in the context.
pub open spec fn children_displayable<V: Displayable<Ctx>, S: Span, Ctx>(
    e: Expression<V, S>,
    i: int,
    context: Ctx,
) -> bool
    decreases e, children(e).len() - i,
{
    if 0 <= i < children(e).len() {
        proof {
            lemma_children_decrease(e, i);
        }
        expression_displayable(children(e)[i], context) && children_displayable(e, i + 1, context)
    } else {
        true
    }
}

proof fn lemma_child_displayable<V: Displayable<Ctx>, S: Span, Ctx>(
    e: Expression<V, S>,
    context: Ctx,
    j: int,
    i: int,
)
    requires
        0 <= j <= i < children(e).len(),
        children_displayable(e, j, context),
    ensures
        expression_displayable(children(e)[i], context),
    decreases i - j,
{
    if j < i {
        lemma_child_displayable(e, context, j + 1, i);
    }
}

impl<V, S: Span> Expression<V, S> {
    /// Writes out this expression where an operator of precedence `surrounding` binds; see
    /// [`expression_text`].
    pub fn text_in<Ctx, G: Fn(u64) -> String>(
        &self,
        surrounding: usize,
        context: &Ctx,
        floats: &G,
    ) -> (r: String) where V: Displayable<Ctx>
        requires
            expression_displayable(*self, *context),
            formats_floats(*floats),
        ensures
            r@ == expression_text(*self, surrounding as int, *context, float_texts(*floats)),
        decreases self,
    {
        let p = self.get_precedence();
        let ghost e = *self;
        proof {
            if children(e).len() > 0 && !(e is VarOrConst) && !(e is Label) {
                lemma_child_displayable(e, *context, 0, 0);
                if children(e).len() > 1 {
                    lemma_child_displayable(e, *context, 0, 1);
                }
                if children(e).len() > 2 {
                    lemma_child_displayable(e, *context, 0, 2);
                }
            }
        }
        let inner = match self {
            Expression::Int(v, _) => int_text(*v),
            Expression::Float(b, _) => float_text(floats, *b),
            Expression::Bool(b, _) => if *b {
                String::from_str("true")
            } else {
                String::from_str("false")
            },
            Expression::VarOrConst(v, _) => v.text(context, floats),
            Expression::Label(v, _) => {
                let mut s = String::from_str("\"");
                let name = v.text(context, floats);
                s.append(name.as_str());
                s.append("\"");
                s
            },
            Expression::Function(name, args, _) => {
                let mut s = name.name.clone();
                s.append("(");
                let mut acc = String::new();
                let mut i: usize = 0;
                assert(acc@ + arguments_text(e, 0, *context, float_texts(*floats)) =~= arguments_text(
                    e,
                    0,
                    *context,
                    float_texts(*floats),
                ));
                while i < args.len()
                    invariant
                        i <= args@.len(),
                        children(e) == args@,
                        e == *self,
                        formats_floats(*floats),
                        children_displayable(e, 0, *context),
                        acc@ + arguments_text(e, i as int, *context, float_texts(*floats))
                            == arguments_text(e, 0, *context, float_texts(*floats)),
                    decreases args.len() - i,
                {
                    proof {
                        lemma_children_decrease(e, i as int);
                        lemma_child_displayable(e, *context, 0, i as int);
                    }
                    let ghost before = acc@;
                    if i > 0 {
                        acc.append(", ");
                    }
                    let t = args[i].text_in(0, context, floats);
                    acc.append(t.as_str());
                    assert(acc@ + arguments_text(e, i + 1, *context, float_texts(*floats)) =~= before
                        + arguments_text(e, i as int, *context, float_texts(*floats)));
                    i = i + 1;
                }
                assert(arguments_text(e, i as int, *context, float_texts(*floats)) =~= seq![]);
                s.append(acc.as_str());
                s.append(")");
                s
            },
            Expression::Minus(a, _) => {
                let mut s = String::from_str("-");
                let t = a.text_in(p, context, floats);
                s.append(t.as_str());
                s
            },
            Expression::Multiplication(a, b, _) => {
                let mut s = a.text_in(p, context, floats);
                s.append("*");
                let t = b.text_in(p + 1, context, floats);
                s.append(t.as_str());
                s
            },
            Expression::Division(a, b, _) => {
                let mut s = a.text_in(p, context, floats);
                s.append("/");
                let t = b.text_in(p + 1, context, floats);
                s.append(t.as_str());
                s
            },
            Expression::Addition(a, b, _) => {
                let mut s = a.text_in(p, context, floats);
                s.append("+");
                let t = b.text_in(p + 1, context, floats);
                s.append(t.as_str());
                s
            },
            Expression::Subtraction(a, b, _) => {
                let mut s = a.text_in(p, context, floats);
                s.append("-");
                let t = b.text_in(p + 1, context, floats);
                s.append(t.as_str());
                s
            },
            Expression::LessThan(a, b, _) => {
                let mut s = a.text_in(p, context, floats);
                s.append("<");
                let t = b.text_in(p + 1, context, floats);
                s.append(t.as_str());
                s
            },
            Expression::LessOrEqual(a, b, _) => {
                let mut s = a.text_in(p, context, floats);
                s.append("<=");
                let t = b.text_in(p + 1, context, floats);
                s.append(t.as_str());
                s
            },
            Expression::GreaterThan(a, b, _) => {
                let mut s = a.text_in(p, context, floats);
                s.append(">");
                let t = b.text_in(p + 1, context, floats);
                s.append(t.as_str());
                s
            },
            Expression::GreaterOrEqual(a, b, _) => {
                let mut s = a.text_in(p, context, floats);
                s.append(">=");
                let t = b.text_in(p + 1, context, floats);
                s.append(t.as_str());
                s
            },
            Expression::Equals(a, b, _) => {
                let mut s = a.text_in(p, context, floats);
                s.append("=");
                let t = b.text_in(p + 1, context, floats);
                s.append(t.as_str());
                s
            },
            Expression::NotEquals(a, b, _) => {
                let mut s = a.text_in(p, context, floats);
                s.append("!=");
                let t = b.text_in(p + 1, context, floats);
                s.append(t.as_str());
                s
            },
            Expression::Negation(a, _) => {
                let mut s = String::from_str("!");
                let t = a.text_in(p + 1, context, floats);
                s.append(t.as_str());
                s
            },
            Expression::Conjunction(a, b, _) => {
                let mut s = a.text_in(p, context, floats);
                s.append("&");
                let t = b.text_in(p + 1, context, floats);
                s.append(t.as_str());
                s
            },
            Expression::Disjunction(a, b, _) => {
                let mut s = a.text_in(p, context, floats);
                s.append("|");
                let t = b.text_in(p + 1, context, floats);
                s.append(t.as_str());
                s
            },
            Expression::IfAndOnlyIf(a, b, _) => {
                let mut s = a.text_in(p, context, floats);
                s.append("<=>");
                let t = b.text_in(p + 1, context, floats);
                s.append(t.as_str());
                s
            },
            Expression::Implies(a, b, _) => {
                let mut s = a.text_in(p, context, floats);
                s.append("=>");
                let t = b.text_in(p + 1, context, floats);
                s.append(t.as_str());
                s
            },
            Expression::Ternary(c, a, b, _) => {
                let mut s = c.text_in(p + 1, context, floats);
                s.append("?");
                let t = a.text_in(p + 1, context, floats);
                s.append(t.as_str());
                s.append(":");
                let u = b.text_in(p + 1, context, floats);
                s.append(u.as_str());
                s
            },
        };
        if surrounding > p {
            let mut out = String::from_str("(");
            out.append(inner.as_str());
            out.append(")");
            out
        } else {
            inner
        }
    }
}

impl<V: Displayable<Ctx>, S: Span, Ctx> Displayable<Ctx> for Expression<V, S> {
    open spec fn displayable_in(&self, context: &Ctx) -> bool {
        expression_displayable(*self, *context)
    }

    open spec fn display_text(&self, context: &Ctx, floats: spec_fn(u64) -> Seq<char>) -> Seq<char> {
        expression_text(*self, 0, *context, floats)
    }

    fn text<G: Fn(u64) -> String>(&self, context: &Ctx, floats: &G) -> (r: String) {
        self.text_in(0, context, floats)
    }
}

/// The texts joined with `sep` between consecutive ones.
pub open spec fn joined(texts: Seq<Seq<char>>, sep: Seq<char>) -> Seq<char>
    decreases texts.len(),
{
    if texts.len() == 0 {
        seq![]
    } else if texts.len() == 1 {
        texts[0]
    } else {
        joined(texts.drop_last(), sep) + sep + texts.last()
    }
}

proof fn lemma_joined_push(texts: Seq<Seq<char>>, x: Seq<char>, sep: Seq<char>)
    ensures
        joined(texts.push(x), sep) == if texts.len() == 0 {
            x
        } else {
            joined(texts, sep) + sep + x
        },
{
    assert(texts.push(x).drop_last() =~= texts);
}

impl<S: Span, E: Displayable<Ctx>, Ctx> Displayable<Ctx> for VariableRange<S, E> {
    open spec fn displayable_in(&self, context: &Ctx) -> bool {
        match self {
            VariableRange::BoundedInt { min, max, .. } => min.displayable_in(context)
                && max.displayable_in(context),
            _ => true,
        }
    }

    open spec fn display_text(&self, context: &Ctx, floats: spec_fn(u64) -> Seq<char>) -> Seq<char> {
        match self {
            VariableRange::BoundedInt { min, max, .. } => "["@ + min.display_text(context, floats)
                + ".."@ + max.display_text(context, floats) + "]"@,
            VariableRange::UnboundedInt { .. } => "int"@,
            VariableRange::Boolean { .. } => "bool"@,
            VariableRange::Float { .. } => "double"@,
        }
    }

    fn text<G: Fn(u64) -> String>(&self, context: &Ctx, floats: &G) -> (r: String) {
        match self {
            VariableRange::BoundedInt { min, max, .. } => {
                let mut s = String::from_str("[");
                let a = min.text(context, floats);
                s.append(a.as_str());
                s.append("..");
                let b = max.text(context, floats);
                s.append(b.as_str());
                s.append("]");
                s
            },
            VariableRange::UnboundedInt { .. } => String::from_str("int"),
            VariableRange::Boolean { .. } => String::from_str("bool"),
            VariableRange::Float { .. } => String::from_str("double"),
        }
    }
}

/// The text of an optional initial value, introduced by `keyword`.
pub open spec fn initial_text<E: Displayable<Ctx>, Ctx>(
    initial: Option<E>,
    keyword: Seq<char>,
    context: Ctx,
    floats: spec_fn(u64) -> Seq<char>,
) -> Seq<char> {
    match initial {
        Some(x) => keyword + x.display_text(&context, floats),
        None => seq![],
    }
}

/// The declaration line of a variable in the given printing style, or nothing when the style
/// does not print it: `const range name = value;` for constants, `global name : range init
/// value;` for global variables and `    name : range init value;` for local ones.
pub open spec fn variable_line<S: Span, E: Displayable<Ctx>, Ctx>(
    v: VariableInfo<S, E>,
    style: VariablePrintingStyle,
    context: Ctx,
    floats: spec_fn(u64) -> Seq<char>,
) -> Seq<char> {
    if !style_accepts(style, v) {
        seq![]
    } else if style == VariablePrintingStyle::Const {
        "const "@ + v.range.display_text(&context, floats) + " "@ + v.name.name@ + initial_text(
            v.initial_value,
            " = "@,
            context,
            floats,
        ) + ";\n"@
    } else {
        (if style == VariablePrintingStyle::GlobalVar {
            "global "@
        } else {
            "    "@
        }) + v.name.name@ + " : "@ + v.range.display_text(&context, floats) + initial_text(
            v.initial_value,
            " init "@,
            context,
            floats,
        ) + ";\n"@
    }
}

/// The declarations of the variables that the style prints, followed by an empty line when the
/// manager holds any variable.
pub open spec fn variables_text<S: Span, E: Displayable<Ctx>, Ctx>(
    vars: Seq<VariableInfo<S, E>>,
    style: VariablePrintingStyle,
    context: Ctx,
    floats: spec_fn(u64) -> Seq<char>,
) -> Seq<char> {
    joined(Seq::new(vars.len(), |i: int| variable_line(vars[i], style, context, floats)), seq![])
        + if vars.len() > 0 {
        "\n"@
    } else {
        seq![]
    }
}

/// Every variable that the style prints can be written out in the context.
pub open spec fn variables_displayable<S: Span, E: Displayable<Ctx>, Ctx>(
    vars: Seq<VariableInfo<S, E>>,
    style: VariablePrintingStyle,
    context: Ctx,
) -> bool {
    forall|i: int|
        0 <= i < vars.len() && style_accepts(style, #[trigger] vars[i]) ==> {
            &&& vars[i].range.displayable_in(&context)
            &&& vars[i].initial_value matches Some(x) ==> x.displayable_in(&context)
        }
}

fn variable_line_text<S: Span, E: Displayable<Ctx>, Ctx, G: Fn(u64) -> String>(
    v: &VariableInfo<S, E>,
    style: VariablePrintingStyle,
    context: &Ctx,
    floats: &G,
) -> (r: String)
    requires
        style_accepts(style, *v) ==> v.range.displayable_in(context) && (v.initial_value matches Some(
            x,
        ) ==> x.displayable_in(context)),
        formats_floats(*floats),
    ensures
        r@ == variable_line(*v, style, *context, float_texts(*floats)),
{
    if !style.accepts(v) {
        return String::new();
    }
    let ghost ft = float_texts(*floats);
    let is_const = match style {
        VariablePrintingStyle::Const => true,
        _ => false,
    };
    let mut s = String::new();
    if is_const {
        s.append("const ");
        let r = v.range.text(context, floats);
        s.append(r.as_str());
        s.append(" ");
        s.append(v.name.name.as_str());
        if let Some(x) = &v.initial_value {
            s.append(" = ");
            let t = x.text(context, floats);
            s.append(t.as_str());
        }
    } else {
        match style {
            VariablePrintingStyle::GlobalVar => s.append("global "),
            _ => s.append("    "),
        }
        s.append(v.name.name.as_str());
        s.append(" : ");
        let r = v.range.text(context, floats);
        s.append(r.as_str());
        if let Some(x) = &v.initial_value {
            s.append(" init ");
            let t = x.text(context, floats);
            s.append(t.as_str());
        }
    }
    s.append(";\n");
    assert(s@ =~= variable_line(*v, style, *context, ft));
    s
}

impl<S: Span, E> VariableManager<S, E> {
    /// Writes out the declarations of the variables that `style` prints, each on its own line,
    /// followed by an empty line when the manager holds any variable.
    pub fn text_with_style<Ctx, G: Fn(u64) -> String>(
        &self,
        style: VariablePrintingStyle,
        context: &Ctx,
        floats: &G,
    ) -> (r: String) where E: Displayable<Ctx>
        requires
            variables_displayable(self.variables@, style, *context),
            formats_floats(*floats),
        ensures
            r@ == variables_text(self.variables@, style, *context, float_texts(*floats)),
    {
        let ghost ft = float_texts(*floats);
        let ghost vars = self.variables@;
        let mut out = String::new();
        let mut i: usize = 0;
        assert(joined(Seq::new(0, |j: int| variable_line(vars[j], style, *context, ft)), seq![])
            =~= seq![]);
        while i < self.variables.len()
            invariant
                i <= vars.len(),
                vars == self.variables@,
                ft == float_texts(*floats),
                formats_floats(*floats),
                variables_displayable(vars, style, *context),
                out@ == joined(
                    Seq::new(i as nat, |j: int| variable_line(vars[j], style, *context, ft)),
                    seq![],
                ),
            decreases vars.len() - i,
        {
            let ghost before = Seq::new(i as nat, |j: int| variable_line(vars[j], style, *context, ft));
            let line = variable_line_text(&self.variables[i], style, context, floats);
            proof {
                lemma_joined_push(before, line@, seq![]);
                assert(Seq::new((i + 1) as nat, |j: int| variable_line(vars[j], style, *context, ft))
                    =~= before.push(line@));
            }
            out.append(line.as_str());
            proof {
                if i > 0 {
                    assert(out@ =~= joined(before, seq![]) + seq![] + line@);
                }
            }
            i = i + 1;
        }
        if self.variables.len() > 0 {
            out.append("\n");
        } else {
            assert(out@ =~= out@ + seq![]);
        }
        out
    }
}

/// The texts of `items`, each between `prefix` and `suffix`, joined with `sep`.
pub open spec fn items_text<T: Displayable<Ctx>, Ctx>(
    items: Seq<T>,
    prefix: Seq<char>,
    suffix: Seq<char>,
    sep: Seq<char>,
    context: Ctx,
    floats: spec_fn(u64) -> Seq<char>,
) -> Seq<char> {
    joined(Seq::new(items.len(), |i: int| prefix + items[i].display_text(&context, floats) + suffix), sep)
}

/// Every item can be written out in the context.
pub open spec fn all_displayable<T: Displayable<Ctx>, Ctx>(items: Seq<T>, context: Ctx) -> bool {
    forall|i: int| 0 <= i < items.len() ==> #[trigger] items[i].displayable_in(&context)
}

/// Writes out `items`, each between `prefix` and `suffix`, joined with `sep`.
fn join_items<T: Displayable<Ctx>, Ctx, G: Fn(u64) -> String>(
    items: &Vec<T>,
    prefix: &str,
    suffix: &str,
    sep: &str,
    context: &Ctx,
    floats: &G,
) -> (r: String)
    requires
        all_displayable(items@, *context),
        formats_floats(*floats),
    ensures
        r@ == items_text(items@, prefix@, suffix@, sep@, *context, float_texts(*floats)),
{
    let ghost ft = float_texts(*floats);
    let ghost s = items@;
    let mut out = String::new();
    let mut i: usize = 0;
    assert(joined(Seq::new(0, |j: int| prefix@ + s[j].display_text(context, ft) + suffix@), sep@)
        =~= seq![]);
    while i < items.len()
        invariant
            i <= s.len(),
            s == items@,
            ft == float_texts(*floats),
            formats_floats(*floats),
            all_displayable(s, *context),
            out@ == joined(
                Seq::new(i as nat, |j: int| prefix@ + s[j].display_text(context, ft) + suffix@),
                sep@,
            ),
        decreases s.len() - i,
    {
        let ghost before = Seq::new(
            i as nat,
            |j: int| prefix@ + s[j].display_text(context, ft) + suffix@,
        );
        let ghost item = prefix@ + s[i as int].display_text(context, ft) + suffix@;
        proof {
            lemma_joined_push(before, item, sep@);
            assert(Seq::new((i + 1) as nat, |j: int| prefix@ + s[j].display_text(context, ft) + suffix@)
                =~= before.push(item));
        }
        let ghost start = out@;
        if i > 0 {
            out.append(sep);
        }
        out.append(prefix);
        let t = items[i].text(context, floats);
        out.append(t.as_str());
        out.append(suffix);
        proof {
            if i > 0 {
                assert(out@ =~= joined(before, sep@) + sep@ + item);
            } else {
                assert(out@ =~= item);
            }
        }
        i = i + 1;
    }
    out
}

impl<V: Displayable<Ctx>, S: Span, E: Displayable<Ctx>, Ctx> Displayable<Ctx> for Assignment<V, S, E> {
    open spec fn displayable_in(&self, context: &Ctx) -> bool {
        self.target.displayable_in(context) && self.value.displayable_in(context)
    }

    /// `target'=value`.
    open spec fn display_text(&self, context: &Ctx, floats: spec_fn(u64) -> Seq<char>) -> Seq<char> {
        self.target.display_text(context, floats) + "'="@ + self.value.display_text(context, floats)
    }

    fn text<G: Fn(u64) -> String>(&self, context: &Ctx, floats: &G) -> (r: String) {
        let mut s = self.target.text(context, floats);
        s.append("'=");
        let v = self.value.text(context, floats);
        s.append(v.as_str());
        s
    }
}

impl<V: Displayable<Ctx>, S: Span, E: Displayable<Ctx>, Ctx> Displayable<Ctx> for Update<V, S, E> {
    open spec fn displayable_in(&self, context: &Ctx) -> bool {
        self.probability.displayable_in(context) && all_displayable(self.assignments@, *context)
    }

    /// `probability : (a1) & (a2) & ...`.
    open spec fn display_text(&self, context: &Ctx, floats: spec_fn(u64) -> Seq<char>) -> Seq<char> {
        self.probability.display_text(context, floats) + " : "@ + items_text(
            self.assignments@,
            "("@,
            ")"@,
            " & "@,
            *context,
            floats,
        )
    }

    fn text<G: Fn(u64) -> String>(&self, context: &Ctx, floats: &G) -> (r: String) {
        let mut s = self.probability.text(context, floats);
        s.append(" : ");
        let a = join_items(&self.assignments, "(", ")", " & ", context, floats);
        s.append(a.as_str());
        s
    }
}

/// The text of an optional action.
pub open spec fn action_text<A: Displayable<Ctx>, Ctx>(
    action: Option<A>,
    context: Ctx,
    floats: spec_fn(u64) -> Seq<char>,
) -> Seq<char> {
    match action {
        Some(a) => a.display_text(&context, floats),
        None => seq![],
    }
}

impl<V: Displayable<Ctx>, S: Span, E: Displayable<Ctx>, A: Displayable<Ctx>, Ctx> Displayable<Ctx> for Command<
    V,
    S,
    E,
    A,
> {
    open spec fn displayable_in(&self, context: &Ctx) -> bool {
        &&& self.action matches Some(a) ==> a.displayable_in(context)
        &&& self.guard.displayable_in(context)
        &&& all_displayable(self.updates@, *context)
    }

    /// `[action] guard -> u1 + u2 + ...;`, with `true` in place of the updates when there are
    /// none.
    open spec fn display_text(&self, context: &Ctx, floats: spec_fn(u64) -> Seq<char>) -> Seq<char> {
        "["@ + action_text(self.action, *context, floats) + "] "@ + self.guard.display_text(
            context,
            floats,
        ) + " -> "@ + (if self.updates@.len() == 0 {
            "true"@
        } else {
            items_text(self.updates@, ""@, ""@, " + "@, *context, floats)
        }) + ";"@
    }

    fn text<G: Fn(u64) -> String>(&self, context: &Ctx, floats: &G) -> (r: String) {
        let mut s = String::from_str("[");
        if let Some(a) = &self.action {
            let t = a.text(context, floats);
            s.append(t.as_str());
        }
        s.append("] ");
        let g = self.guard.text(context, floats);
        s.append(g.as_str());
        s.append(" -> ");
        if self.updates.len() == 0 {
            s.append("true");
        } else {
            proof {
                reveal_strlit("");
            }
            let u = join_items(&self.updates, "", "", " + ", context, floats);
            s.append(u.as_str());
        }
        s.append(";");
        s
    }
}

impl<S: Span, Ctx> Displayable<Ctx> for RenameRule<S> {
    open spec fn displayable_in(&self, context: &Ctx) -> bool {
        true
    }

    /// `old = new`.
    open spec fn display_text(&self, context: &Ctx, floats: spec_fn(u64) -> Seq<char>) -> Seq<char> {
        self.old_name.name@ + " = "@ + self.new_name.name@
    }

    fn text<G: Fn(u64) -> String>(&self, context: &Ctx, floats: &G) -> (r: String) {
        let mut s = self.old_name.name.clone();
        s.append(" = ");
        s.append(self.new_name.name.as_str());
        s
    }
}

impl<S: Span, Ctx> Displayable<Ctx> for RenamedModule<S> {
    open spec fn displayable_in(&self, context: &Ctx) -> bool {
        true
    }

    /// `module new = old [r1, r2, ...] endmodule`.
    open spec fn display_text(&self, context: &Ctx, floats: spec_fn(u64) -> Seq<char>) -> Seq<char> {
        "module "@ + self.new_name.name@ + " = "@ + self.old_name.name@ + " ["@ + items_text(
            self.rename_rules.rules@,
            ""@,
            ""@,
            ", "@,
            *context,
            floats,
        ) + "] endmodule"@
    }

    fn text<G: Fn(u64) -> String>(&self, context: &Ctx, floats: &G) -> (r: String) {
        let mut s = String::from_str("module ");
        s.append(self.new_name.name.as_str());
        s.append(" = ");
        s.append(self.old_name.name.as_str());
        s.append(" [");
        let rules = join_items(&self.rename_rules.rules, "", "", ", ", context, floats);
        s.append(rules.as_str());
        s.append("] endmodule");
        s
    }
}

impl<S: Span, E: Displayable<Ctx>, Ctx> Displayable<Ctx> for Label<S, E> {
    open spec fn displayable_in(&self, context: &Ctx) -> bool {
        self.condition.displayable_in(context)
    }

    /// `label "name" = condition;` and a line break.
    open spec fn display_text(&self, context: &Ctx, floats: spec_fn(u64) -> Seq<char>) -> Seq<char> {
        "label \""@ + self.name.name@ + "\" = "@ + self.condition.display_text(context, floats)
            + ";\n"@
    }

    fn text<G: Fn(u64) -> String>(&self, context: &Ctx, floats: &G) -> (r: String) {
        let mut s = String::from_str("label \"");
        s.append(self.name.name.as_str());
        s.append("\" = ");
        let c = self.condition.text(context, floats);
        s.append(c.as_str());
        s.append(";\n");
        s
    }
}

impl<S: Span, E: Displayable<Ctx>, Ctx> Displayable<Ctx> for LabelManager<S, E> {
    open spec fn displayable_in(&self, context: &Ctx) -> bool {
        all_displayable(self.labels@, *context)
    }

    /// Each label followed by a line break, and an empty line after them when there are any.
    open spec fn display_text(&self, context: &Ctx, floats: spec_fn(u64) -> Seq<char>) -> Seq<char> {
        items_text(self.labels@, ""@, "\n"@, ""@, *context, floats) + if self.labels@.len() > 0 {
            "\n"@
        } else {
            seq![]
        }
    }

    fn text<G: Fn(u64) -> String>(&self, context: &Ctx, floats: &G) -> (r: String) {
        let mut s = join_items(&self.labels, "", "\n", "", context, floats);
        if self.labels.len() > 0 {
            s.append("\n");
        } else {
            assert(s@ =~= s@ + seq![]);
        }
        s
    }
}

impl<S: Span, E: Displayable<Ctx>, Ctx> Displayable<Ctx> for Formula<S, E> {
    open spec fn displayable_in(&self, context: &Ctx) -> bool {
        self.condition.displayable_in(context)
    }

    /// `formula name = condition;`.
    open spec fn display_text(&self, context: &Ctx, floats: spec_fn(u64) -> Seq<char>) -> Seq<char> {
        "formula "@ + self.name.name@ + " = "@ + self.condition.display_text(context, floats) + ";"@
    }

    fn text<G: Fn(u64) -> String>(&self, context: &Ctx, floats: &G) -> (r: String) {
        let mut s = String::from_str("formula ");
        s.append(self.name.name.as_str());
        s.append(" = ");
        let c = self.condition.text(context, floats);
        s.append(c.as_str());
        s.append(";");
        s
    }
}

impl<S: Span, E: Displayable<Ctx>, Ctx> Displayable<Ctx> for FormulaManager<S, E> {
    open spec fn displayable_in(&self, context: &Ctx) -> bool {
        all_displayable(self.formulas@, *context)
    }

    /// Each formula followed by a line break, and an empty line after them when there are any.
    open spec fn display_text(&self, context: &Ctx, floats: spec_fn(u64) -> Seq<char>) -> Seq<char> {
        items_text(self.formulas@, ""@, "\n"@, ""@, *context, floats) + if self.formulas@.len()
            > 0 {
            "\n"@
        } else {
            seq![]
        }
    }

    fn text<G: Fn(u64) -> String>(&self, context: &Ctx, floats: &G) -> (r: String) {
        let mut s = join_items(&self.formulas, "", "\n", "", context, floats);
        if self.formulas.len() > 0 {
            s.append("\n");
        } else {
            assert(s@ =~= s@ + seq![]);
        }
        s
    }
}

impl<A: Displayable<Ctx>, Ctx> Displayable<Ctx> for RewardsTarget<A> {
    open spec fn displayable_in(&self, context: &Ctx) -> bool {
        self matches RewardsTarget::Action(Some(a)) ==> a.displayable_in(context)
    }

    /// Nothing for a state reward, `[action] ` for a transition reward.
    open spec fn display_text(&self, context: &Ctx, floats: spec_fn(u64) -> Seq<char>) -> Seq<char> {
        match self {
            RewardsTarget::State => seq![],
            RewardsTarget::Action(Some(a)) => "["@ + a.display_text(context, floats) + "] "@,
            RewardsTarget::Action(None) => "[] "@,
        }
    }

    fn text<G: Fn(u64) -> String>(&self, context: &Ctx, floats: &G) -> (r: String) {
        match self {
            RewardsTarget::State => String::new(),
            RewardsTarget::Action(Some(a)) => {
                let mut s = String::from_str("[");
                let t = a.text(context, floats);
                s.append(t.as_str());
                s.append("] ");
                s
            },
            RewardsTarget::Action(None) => String::from_str("[] "),
        }
    }
}

impl<S: Span, E: Displayable<Ctx>, A: Displayable<Ctx>, Ctx> Displayable<Ctx> for RewardsElement<
    S,
    E,
    A,
> {
    open spec fn displayable_in(&self, context: &Ctx) -> bool {
        &&& self.target.displayable_in(context)
        &&& self.condition.displayable_in(context)
        &&& self.value.displayable_in(context)
    }

    /// `[action] condition:value;`.
    open spec fn display_text(&self, context: &Ctx, floats: spec_fn(u64) -> Seq<char>) -> Seq<char> {
        self.target.display_text(context, floats) + self.condition.display_text(context, floats)
            + ":"@ + self.value.display_text(context, floats) + ";"@
    }

    fn text<G: Fn(u64) -> String>(&self, context: &Ctx, floats: &G) -> (r: String) {
        let mut s = self.target.text(context, floats);
        let c = self.condition.text(context, floats);
        s.append(c.as_str());
        s.append(":");
        let v = self.value.text(context, floats);
        s.append(v.as_str());
        s.append(";");
        s
    }
}

impl<S: Span, E: Displayable<Ctx>, A: Displayable<Ctx>, Ctx> Displayable<Ctx> for Rewards<S, E, A> {
    open spec fn displayable_in(&self, context: &Ctx) -> bool {
        all_displayable(self.entries@, *context)
    }

    /// `rewards "name"`, the entries on lines of their own, and `endrewards`, each line ending
    /// with a line break.
    open spec fn display_text(&self, context: &Ctx, floats: spec_fn(u64) -> Seq<char>) -> Seq<char> {
        "rewards"@ + (match self.name {
            Some(n) => " \""@ + n.name@ + "\""@,
            None => seq![],
        }) + "\n"@ + items_text(self.entries@, "    "@, "\n"@, ""@, *context, floats)
            + "endrewards\n"@
    }

    fn text<G: Fn(u64) -> String>(&self, context: &Ctx, floats: &G) -> (r: String) {
        let mut s = String::from_str("rewards");
        if let Some(n) = &self.name {
            s.append(" \"");
            s.append(n.name.as_str());
            s.append("\"");
        }
        s.append("\n");
        let entries = join_items(&self.entries, "    ", "\n", "", context, floats);
        s.append(entries.as_str());
        s.append("endrewards\n");
        s
    }
}

impl<S: Span, Ctx> Displayable<Ctx> for ModelType<S> {
    open spec fn displayable_in(&self, context: &Ctx) -> bool {
        true
    }

    /// `dtmc`, `ctmc` or `mdp`.
    open spec fn display_text(&self, context: &Ctx, floats: spec_fn(u64) -> Seq<char>) -> Seq<char> {
        match self {
            ModelType::Dtmc(_) => "dtmc"@,
            ModelType::Ctmc(_) => "ctmc"@,
            ModelType::Mdp(_) => "mdp"@,
        }
    }

    fn text<G: Fn(u64) -> String>(&self, context: &Ctx, floats: &G) -> (r: String) {
        match self {
            ModelType::Dtmc(_) => String::from_str("dtmc"),
            ModelType::Ctmc(_) => String::from_str("ctmc"),
            ModelType::Mdp(_) => String::from_str("mdp"),
        }
    }
}

/// The text of a module: `module name`, the declarations of its local variables, its commands
/// on lines of their own, and `endmodule`, each line ending with a line break. `own_index` is the
/// module's index in its model, `vars` the model's variables.
pub open spec fn module_text<V: Displayable<Ctx>, S: Span, E: Displayable<Ctx>, A: Displayable<Ctx>, Ctx>(
    m: Module<V, S, E, A>,
    own_index: usize,
    vars: Seq<VariableInfo<S, E>>,
    context: Ctx,
    floats: spec_fn(u64) -> Seq<char>,
) -> Seq<char> {
    "module "@ + m.name.name@ + "\n"@ + variables_text(
        vars,
        VariablePrintingStyle::LocalVar { module_index: own_index },
        context,
        floats,
    ) + items_text(m.commands@, "    "@, "\n"@, ""@, context, floats) + "endmodule\n"@
}

impl<V, S: Span, E, A> Module<V, S, E, A> {
    /// Writes out this module as the module with index `own_index` of a model whose variables
    /// `variable_manager` holds; see [`module_text`].
    pub fn text_in_model<Ctx, G: Fn(u64) -> String>(
        &self,
        own_index: usize,
        variable_manager: &VariableManager<S, E>,
        context: &Ctx,
        floats: &G,
    ) -> (r: String) where V: Displayable<Ctx>, E: Displayable<Ctx>, A: Displayable<Ctx>
        requires
            variables_displayable(
                variable_manager.variables@,
                VariablePrintingStyle::LocalVar { module_index: own_index },
                *context,
            ),
            all_displayable(self.commands@, *context),
            formats_floats(*floats),
        ensures
            r@ == module_text(
                *self,
                own_index,
                variable_manager.variables@,
                *context,
                float_texts(*floats),
            ),
    {
        let mut s = String::from_str("module ");
        s.append(self.name.name.as_str());
        s.append("\n");
        let vars = variable_manager.text_with_style(
            VariablePrintingStyle::LocalVar { module_index: own_index },
            context,
            floats,
        );
        s.append(vars.as_str());
        let commands = join_items(&self.commands, "    ", "\n", "", context, floats);
        s.append(commands.as_str());
        s.append("endmodule\n");
        s
    }
}

/// Every variable's range and initial value can be written out in the context.
pub open spec fn every_variable_displayable<S: Span, E: Displayable<Ctx>, Ctx>(
    vars: Seq<VariableInfo<S, E>>,
    context: Ctx,
) -> bool {
    forall|i: int|
        0 <= i < vars.len() ==> {
            &&& (#[trigger] vars[i]).range.displayable_in(&context)
            &&& vars[i].initial_value matches Some(x) ==> x.displayable_in(&context)
        }
}

/// The text of an optional initial-state constraint: `init`, the constraint, `endinit`, each on a
/// line of its own.
pub open spec fn init_block_text<E: Displayable<Ctx>, Ctx>(
    init: Option<E>,
    context: Ctx,
    floats: spec_fn(u64) -> Seq<char>,
) -> Seq<char> {
    match init {
        Some(x) => "init\n"@ + "    "@ + x.display_text(&context, floats) + "\n"@ + "endinit\n"@,
        None => seq![],
    }
}

/// The texts of the modules of a model, each followed by a line break.
pub open spec fn modules_text<V: Displayable<Ctx>, S: Span, E: Displayable<Ctx>, A: Displayable<Ctx>, Ctx>(
    modules: Seq<Module<V, S, E, A>>,
    vars: Seq<VariableInfo<S, E>>,
    context: Ctx,
    floats: spec_fn(u64) -> Seq<char>,
) -> Seq<char> {
    joined(
        Seq::new(
            modules.len(),
            |i: int| module_text(modules[i], i as usize, vars, context, floats) + "\n"@,
        ),
        ""@,
    )
}

impl<V: Displayable<Ctx>, S: Span, E: Displayable<Ctx>, A: Displayable<Ctx>, Ctx> Displayable<Ctx> for Model<
    V,
    S,
    E,
    A,
> {
    open spec fn displayable_in(&self, context: &Ctx) -> bool {
        &&& every_variable_displayable(self.variable_manager.variables@, *context)
        &&& self.formulas.displayable_in(context)
        &&& self.labels.displayable_in(context)
        &&& self.init_constraint matches Some(x) ==> x.displayable_in(context)
        &&& forall|i: int|
            0 <= i < self.modules.modules@.len() ==> all_displayable(
                (#[trigger] self.modules.modules@[i]).commands@,
                *context,
            )
        &&& all_displayable(self.rewards.rewards@, *context)
    }

    /// The model type and an empty line; the constants; the global variables; the formulas; the
    /// labels; the initial-state constraint; the modules, the renamed modules and the reward
    /// structures, each followed by a line break.
    open spec fn display_text(&self, context: &Ctx, floats: spec_fn(u64) -> Seq<char>) -> Seq<char> {
        let vars = self.variable_manager.variables@;
        self.model_type.display_text(context, floats) + "\n"@ + "\n"@ + variables_text(
            vars,
            VariablePrintingStyle::Const,
            *context,
            floats,
        ) + variables_text(vars, VariablePrintingStyle::GlobalVar, *context, floats)
            + self.formulas.display_text(context, floats) + self.labels.display_text(context, floats)
            + init_block_text(self.init_constraint, *context, floats) + modules_text(
            self.modules.modules@,
            vars,
            *context,
            floats,
        ) + items_text(self.renamed_modules@, ""@, "\n"@, ""@, *context, floats) + items_text(
            self.rewards.rewards@,
            ""@,
            "\n"@,
            ""@,
            *context,
            floats,
        )
    }

    fn text<G: Fn(u64) -> String>(&self, context: &Ctx, floats: &G) -> (r: String) {
        let ghost ft = float_texts(*floats);
        let ghost vars = self.variable_manager.variables@;
        let mut s = self.model_type.text(context, floats);
        s.append("\n");
        s.append("\n");
        let consts = self.variable_manager.text_with_style(
            VariablePrintingStyle::Const,
            context,
            floats,
        );
        s.append(consts.as_str());
        let globals = self.variable_manager.text_with_style(
            VariablePrintingStyle::GlobalVar,
            context,
            floats,
        );
        s.append(globals.as_str());
        let formulas = self.formulas.text(context, floats);
        s.append(formulas.as_str());
        let labels = self.labels.text(context, floats);
        s.append(labels.as_str());
        if let Some(init) = &self.init_constraint {
            s.append("init\n");
            s.append("    ");
            let t = init.text(context, floats);
            s.append(t.as_str());
            s.append("\n");
            s.append("endinit\n");
        }
        let ghost head = s@;
        let modules = &self.modules.modules;
        let ghost ms = modules@;
        let mut acc = String::new();
        let mut i: usize = 0;
        assert(joined(
            Seq::new(0, |j: int| module_text(ms[j], j as usize, vars, *context, ft) + "\n"@),
            ""@,
        ) =~= seq![]);
        while i < modules.len()
            invariant
                i <= ms.len(),
                ms == modules@,
                vars == self.variable_manager.variables@,
                ft == float_texts(*floats),
                formats_floats(*floats),
                every_variable_displayable(vars, *context),
                forall|k: int|
                    0 <= k < ms.len() ==> all_displayable((#[trigger] ms[k]).commands@, *context),
                acc@ == joined(
                    Seq::new(
                        i as nat,
                        |j: int| module_text(ms[j], j as usize, vars, *context, ft) + "\n"@,
                    ),
                    ""@,
                ),
            decreases ms.len() - i,
        {
            let ghost before = Seq::new(
                i as nat,
                |j: int| module_text(ms[j], j as usize, vars, *context, ft) + "\n"@,
            );
            let m = modules[i].text_in_model(i, &self.variable_manager, context, floats);
            let ghost item = m@ + "\n"@;
            proof {
                lemma_joined_push(before, item, ""@);
                assert(Seq::new(
                    (i + 1) as nat,
                    |j: int| module_text(ms[j], j as usize, vars, *context, ft) + "\n"@,
                ) =~= before.push(item));
            }
            acc.append(m.as_str());
            acc.append("\n");
            proof {
                reveal_strlit("");
                if i > 0 {
                    assert(acc@ =~= joined(before, ""@) + ""@ + item);
                } else {
                    assert(acc@ =~= item);
                }
            }
            i = i + 1;
        }
        s.append(acc.as_str());
        let renamed = join_items(&self.renamed_modules, "", "\n", "", context, floats);
        s.append(renamed.as_str());
        let rewards = join_items(&self.rewards.rewards, "", "\n", "", context, floats);
        s.append(rewards.as_str());
        s
    }
}

/// The fully parenthesised text of an expression, as its debug form writes it: every operand
/// of an operator stands in parentheses, e.g. `(a)+((b)*(c))`.
pub open spec fn expression_debug_text<V: Displayable<Ctx>, S: Span, Ctx>(
    e: Expression<V, S>,
    context: Ctx,
    floats: spec_fn(u64) -> Seq<char>,
) -> Seq<char>
    decreases e, children(e).len() + 1,
{
    match e {
        Expression::Int(v, _) => int_decimal(v as int),
        Expression::Float(b, _) => floats(b),
        Expression::Bool(b, _) => if b {
            "true"@
        } else {
            "false"@
        },
        Expression::VarOrConst(v, _) => v.display_text(&context, floats),
        Expression::Label(v, _) => "\""@ + v.display_text(&context, floats) + "\""@,
        Expression::Function(name, _, _) => name.name@ + "("@ + arguments_debug_text(
            e,
            0,
            context,
            floats,
        ) + ")"@,
        Expression::Minus(a, _) => "-("@ + expression_debug_text(*a, context, floats) + ")"@,
        Expression::Multiplication(a, b, _) => "("@ + expression_debug_text(*a, context, floats) + ")*("@
            + expression_debug_text(*b, context, floats) + ")"@,
        Expression::Division(a, b, _) => "("@ + expression_debug_text(*a, context, floats) + ")/("@
            + expression_debug_text(*b, context, floats) + ")"@,
        Expression::Addition(a, b, _) => "("@ + expression_debug_text(*a, context, floats) + ")+("@
            + expression_debug_text(*b, context, floats) + ")"@,
        Expression::Subtraction(a, b, _) => "("@ + expression_debug_text(*a, context, floats) + ")-("@
            + expression_debug_text(*b, context, floats) + ")"@,
        Expression::LessThan(a, b, _) => "("@ + expression_debug_text(*a, context, floats) + ")<("@
            + expression_debug_text(*b, context, floats) + ")"@,
        Expression::LessOrEqual(a, b, _) => "("@ + expression_debug_text(*a, context, floats) + ")<=("@
            + expression_debug_text(*b, context, floats) + ")"@,
        Expression::GreaterThan(a, b, _) => "("@ + expression_debug_text(*a, context, floats) + ")>("@
            + expression_debug_text(*b, context, floats) + ")"@,
        Expression::GreaterOrEqual(a, b, _) => "("@ + expression_debug_text(*a, context, floats) + ")>=("@
            + expression_debug_text(*b, context, floats) + ")"@,
        Expression::Equals(a, b, _) => "("@ + expression_debug_text(*a, context, floats) + ")=("@
            + expression_debug_text(*b, context, floats) + ")"@,
        Expression::NotEquals(a, b, _) => "("@ + expression_debug_text(*a, context, floats) + ")!=("@
            + expression_debug_text(*b, context, floats) + ")"@,
        Expression::Conjunction(a, b, _) => "("@ + expression_debug_text(*a, context, floats) + ")&("@
            + expression_debug_text(*b, context, floats) + ")"@,
        Expression::Disjunction(a, b, _) => "("@ + expression_debug_text(*a, context, floats) + ")|("@
            + expression_debug_text(*b, context, floats) + ")"@,
        Expression::IfAndOnlyIf(a, b, _) => "("@ + expression_debug_text(*a, context, floats) + ")<=>("@
            + expression_debug_text(*b, context, floats) + ")"@,
        Expression::Implies(a, b, _) => "("@ + expression_debug_text(*a, context, floats) + ")=>("@
            + expression_debug_text(*b, context, floats) + ")"@,
        Expression::Negation(a, _) => "!("@ + expression_debug_text(*a, context, floats) + ")"@,
        Expression::Ternary(c, a, b, _) => "("@ + expression_debug_text(*c, context, floats)
            + ")?("@ + expression_debug_text(*a, context, floats) + "):("@ + expression_debug_text(
            *b,
            context,
            floats,
        ) + ")"@,
    }
}

/// The debug texts of the arguments of a function call from position `i` on, separated by
/// `, `.
pub open spec fn arguments_debug_text<V: Displayable<Ctx>, S: Span, Ctx>(
    e: Expression<V, S>,
    i: int,
    context: Ctx,
    floats: spec_fn(u64) -> Seq<char>,
) -> Seq<char>
    decreases e, children(e).len() - i,
{
    if 0 <= i < children(e).len() {
        proof {
            lemma_children_decrease(e, i);
        }
        (if i > 0 {
            ", "@
        } else {
            seq![]
        }) + expression_debug_text(children(e)[i], context, floats) + arguments_debug_text(
            e,
            i + 1,
            context,
            floats,
        )
    } else {
        seq![]
    }
}

impl<V, S: Span> Expression<V, S> {
    /// Writes out this expression fully parenthesised; see [`expression_debug_text`].
    pub fn debug_text<Ctx, G: Fn(u64) -> String>(&self, context: &Ctx, floats: &G) -> (r: String) where
        V: Displayable<Ctx>,
        requires
            expression_displayable(*self, *context),
            formats_floats(*floats),
        ensures
            r@ == expression_debug_text(*self, *context, float_texts(*floats)),
        decreases self,
    {
        let ghost e = *self;
        proof {
            if children(e).len() > 0 && !(e is VarOrConst) && !(e is Label) {
                lemma_child_displayable(e, *context, 0, 0);
                if children(e).len() > 1 {
                    lemma_child_displayable(e, *context, 0, 1);
                }
                if children(e).len() > 2 {
                    lemma_child_displayable(e, *context, 0, 2);
                }
            }
        }
        match self {
            Expression::Int(v, _) => int_text(*v),
            Expression::Float(b, _) => float_text(floats, *b),
            Expression::Bool(b, _) => if *b {
                String::from_str("true")
            } else {
                String::from_str("false")
            },
            Expression::VarOrConst(v, _) => v.text(context, floats),
            Expression::Label(v, _) => {
                let mut s = String::from_str("\"");
                let name = v.text(context, floats);
                s.append(name.as_str());
                s.append("\"");
                s
            },
            Expression::Function(name, args, _) => {
                let mut s = name.name.clone();
                s.append("(");
                let mut acc = String::new();
                let mut i: usize = 0;
                assert(acc@ + arguments_debug_text(e, 0, *context, float_texts(*floats))
                    =~= arguments_debug_text(e, 0, *context, float_texts(*floats)));
                while i < args.len()
                    invariant
                        i <= args@.len(),
                        children(e) == args@,
                        e == *self,
                        formats_floats(*floats),
                        children_displayable(e, 0, *context),
                        acc@ + arguments_debug_text(e, i as int, *context, float_texts(*floats))
                            == arguments_debug_text(e, 0, *context, float_texts(*floats)),
                    decreases args.len() - i,
                {
                    proof {
                        lemma_children_decrease(e, i as int);
                        lemma_child_displayable(e, *context, 0, i as int);
                    }
                    let ghost before = acc@;
                    if i > 0 {
                        acc.append(", ");
                    }
                    let t = args[i].debug_text(context, floats);
                    acc.append(t.as_str());
                    assert(acc@ + arguments_debug_text(e, i + 1, *context, float_texts(*floats))
                        =~= before + arguments_debug_text(e, i as int, *context, float_texts(*floats)));
                    i = i + 1;
                }
                assert(arguments_debug_text(e, i as int, *context, float_texts(*floats)) =~= seq![]);
                s.append(acc.as_str());
                s.append(")");
                s
            },
            Expression::Minus(a, _) => {
                let mut s = String::from_str("-(");
                let t = a.debug_text(context, floats);
                s.append(t.as_str());
                s.append(")");
                s
            },
            Expression::Multiplication(a, b, _) => {
                let mut s = String::from_str("(");
                let l = a.debug_text(context, floats);
                s.append(l.as_str());
                s.append(")*(");
                let r = b.debug_text(context, floats);
                s.append(r.as_str());
                s.append(")");
                s
            },
            Expression::Division(a, b, _) => {
                let mut s = String::from_str("(");
                let l = a.debug_text(context, floats);
                s.append(l.as_str());
                s.append(")/(");
                let r = b.debug_text(context, floats);
                s.append(r.as_str());
                s.append(")");
                s
            },
            Expression::Addition(a, b, _) => {
                let mut s = String::from_str("(");
                let l = a.debug_text(context, floats);
                s.append(l.as_str());
                s.append(")+(");
                let r = b.debug_text(context, floats);
                s.append(r.as_str());
                s.append(")");
                s
            },
            Expression::Subtraction(a, b, _) => {
                let mut s = String::from_str("(");
                let l = a.debug_text(context, floats);
                s.append(l.as_str());
                s.append(")-(");
                let r = b.debug_text(context, floats);
                s.append(r.as_str());
                s.append(")");
                s
            },
            Expression::LessThan(a, b, _) => {
                let mut s = String::from_str("(");
                let l = a.debug_text(context, floats);
                s.append(l.as_str());
                s.append(")<(");
                let r = b.debug_text(context, floats);
                s.append(r.as_str());
                s.append(")");
                s
            },
            Expression::LessOrEqual(a, b, _) => {
                let mut s = String::from_str("(");
                let l = a.debug_text(context, floats);
                s.append(l.as_str());
                s.append(")<=(");
                let r = b.debug_text(context, floats);
                s.append(r.as_str());
                s.append(")");
                s
            },
            Expression::GreaterThan(a, b, _) => {
                let mut s = String::from_str("(");
                let l = a.debug_text(context, floats);
                s.append(l.as_str());
                s.append(")>(");
                let r = b.debug_text(context, floats);
                s.append(r.as_str());
                s.append(")");
                s
            },
            Expression::GreaterOrEqual(a, b, _) => {
                let mut s = String::from_str("(");
                let l = a.debug_text(context, floats);
                s.append(l.as_str());
                s.append(")>=(");
                let r = b.debug_text(context, floats);
                s.append(r.as_str());
                s.append(")");
                s
            },
            Expression::Equals(a, b, _) => {
                let mut s = String::from_str("(");
                let l = a.debug_text(context, floats);
                s.append(l.as_str());
                s.append(")=(");
                let r = b.debug_text(context, floats);
                s.append(r.as_str());
                s.append(")");
                s
            },
            Expression::NotEquals(a, b, _) => {
                let mut s = String::from_str("(");
                let l = a.debug_text(context, floats);
                s.append(l.as_str());
                s.append(")!=(");
                let r = b.debug_text(context, floats);
                s.append(r.as_str());
                s.append(")");
                s
            },
            Expression::Conjunction(a, b, _) => {
                let mut s = String::from_str("(");
                let l = a.debug_text(context, floats);
                s.append(l.as_str());
                s.append(")&(");
                let r = b.debug_text(context, floats);
                s.append(r.as_str());
                s.append(")");
                s
            },
            Expression::Disjunction(a, b, _) => {
                let mut s = String::from_str("(");
                let l = a.debug_text(context, floats);
                s.append(l.as_str());
                s.append(")|(");
                let r = b.debug_text(context, floats);
                s.append(r.as_str());
                s.append(")");
                s
            },
            Expression::IfAndOnlyIf(a, b, _) => {
                let mut s = String::from_str("(");
                let l = a.debug_text(context, floats);
                s.append(l.as_str());
                s.append(")<=>(");
                let r = b.debug_text(context, floats);
                s.append(r.as_str());
                s.append(")");
                s
            },
            Expression::Implies(a, b, _) => {
                let mut s = String::from_str("(");
                let l = a.debug_text(context, floats);
                s.append(l.as_str());
                s.append(")=>(");
                let r = b.debug_text(context, floats);
                s.append(r.as_str());
                s.append(")");
                s
            },
            Expression::Negation(a, _) => {
                let mut s = String::from_str("!(");
                let t = a.debug_text(context, floats);
                s.append(t.as_str());
                s.append(")");
                s
            },
            Expression::Ternary(c, a, b, _) => {
                let mut s = String::from_str("(");
                let x = c.debug_text(context, floats);
                s.append(x.as_str());
                s.append(")?(");
                let y = a.debug_text(context, floats);
                s.append(y.as_str());
                s.append("):(");
                let z = b.debug_text(context, floats);
                s.append(z.as_str());
                s.append(")");
                s
            },
        }
    }
}

impl VariableAddError {
    /// The message that describes this error.
    pub fn message(&self) -> (r: String)
        ensures
            match *self {
                VariableAddError::VariableExists { reference } => r@
                    == "Variable already exists in this manager (index "@ + decimal(
                    reference.index as nat,
                ) + ")"@,
            },
    {
        match self {
            VariableAddError::VariableExists { reference } => {
                let mut s = String::from_str("Variable already exists in this manager (index ");
                let n = decimal_text(reference.index as u64);
                s.append(n.as_str());
                s.append(")");
                s
            },
        }
    }
}

} // verus!
