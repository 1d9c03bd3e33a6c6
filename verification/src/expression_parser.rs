//! Reads PRISM expressions from tokens.
//!
//! The grammar has these levels, from the loosest binding to the tightest; every binary
//! operator groups to the left:
//!
//! | level | form |
//! |---|---|
//! | 0 | `c ? a : b` (the parts are of level 1) |
//! | 1 | `=>` |
//! | 2 | `<=>` |
//! | 3 | `\|` |
//! | 4 | `&` |
//! | 5 | `!` (prefix, repeatable) |
//! | 6 | `=`, `!=` |
//! | 7 | `<`, `<=`, `>`, `>=` |
//! | 8 | `+`, `-` |
//! | 9 | `*`, `/` |
//! | 10 | `-` (prefix, repeatable) |
//! | 11 | literals, `(e)`, `f(a, b, ...)`, variables, `"label"` |
use crate::attribute_parser::{found_at, key_at, span_at, spans_tracked, start_at, token_is, TokensView};
use crate::expressions::{children, kind, span_of, Expression};
use crate::identifier::{name_error, Identifier};
use crate::lexer::{lex, lexed_view, raw_lex};
use crate::parse_error::{help_for_expected, describes_error, patterns_view, ParserError, ParserErrorValue, Pattern, PatternValue, ValidationError};
use crate::spans::{range_end, FullSpan, Span};
use crate::token::{Token, TokenValue};
use vstd::prelude::*;
use vstd::string::StringExecFns;

verus! {

/// An expression as read from tokens: the shape of an [`Expression`] over named variables, with
/// names as character sequences, floating-point literals as their source text, and spans as
/// ranges.
pub enum ExprSyntax {
    /// An integer literal.
    Int(i64, Option<(usize, usize)>),
    /// A floating-point literal, as written.
    Float(Seq<char>, Option<(usize, usize)>),
    /// A boolean literal.
    Bool(bool, Option<(usize, usize)>),
    /// A variable or constant.
    VarOrConst(Seq<char>, Option<(usize, usize)>),
    /// A label: its name, the span of the name, and the span of the quoted label.
    Label(Seq<char>, Option<(usize, usize)>, Option<(usize, usize)>),
    /// A function call: the function's name and its span, the arguments, and the span.
    Function(Seq<char>, Option<(usize, usize)>, Seq<ExprSyntax>, Option<(usize, usize)>),
    /// See [`Expression::Minus`].
    Minus(Box<ExprSyntax>, Option<(usize, usize)>),
    /// See [`Expression::Multiplication`].
    Multiplication(Box<ExprSyntax>, Box<ExprSyntax>, Option<(usize, usize)>),
    /// See [`Expression::Division`].
    Division(Box<ExprSyntax>, Box<ExprSyntax>, Option<(usize, usize)>),
    /// See [`Expression::Addition`].
    Addition(Box<ExprSyntax>, Box<ExprSyntax>, Option<(usize, usize)>),
    /// See [`Expression::Subtraction`].
    Subtraction(Box<ExprSyntax>, Box<ExprSyntax>, Option<(usize, usize)>),
    /// See [`Expression::LessThan`].
    LessThan(Box<ExprSyntax>, Box<ExprSyntax>, Option<(usize, usize)>),
    /// See [`Expression::LessOrEqual`].
    LessOrEqual(Box<ExprSyntax>, Box<ExprSyntax>, Option<(usize, usize)>),
    /// See [`Expression::GreaterThan`].
    GreaterThan(Box<ExprSyntax>, Box<ExprSyntax>, Option<(usize, usize)>),
    /// See [`Expression::GreaterOrEqual`].
    GreaterOrEqual(Box<ExprSyntax>, Box<ExprSyntax>, Option<(usize, usize)>),
    /// See [`Expression::Equals`].
    Equals(Box<ExprSyntax>, Box<ExprSyntax>, Option<(usize, usize)>),
    /// See [`Expression::NotEquals`].
    NotEquals(Box<ExprSyntax>, Box<ExprSyntax>, Option<(usize, usize)>),
    /// See [`Expression::Negation`].
    Negation(Box<ExprSyntax>, Option<(usize, usize)>),
    /// See [`Expression::Conjunction`].
    Conjunction(Box<ExprSyntax>, Box<ExprSyntax>, Option<(usize, usize)>),
    /// See [`Expression::Disjunction`].
    Disjunction(Box<ExprSyntax>, Box<ExprSyntax>, Option<(usize, usize)>),
    /// See [`Expression::IfAndOnlyIf`].
    IfAndOnlyIf(Box<ExprSyntax>, Box<ExprSyntax>, Option<(usize, usize)>),
    /// See [`Expression::Implies`].
    Implies(Box<ExprSyntax>, Box<ExprSyntax>, Option<(usize, usize)>),
    /// See [`Expression::Ternary`].
    Ternary(Box<ExprSyntax>, Box<ExprSyntax>, Box<ExprSyntax>, Option<(usize, usize)>),
}

/// The variant of a read expression, numbered as [`kind`] numbers those of [`Expression`].
pub open spec fn syntax_kind(x: ExprSyntax) -> int {
    match x {
        ExprSyntax::Int(..) => 0,
        ExprSyntax::Float(..) => 1,
        ExprSyntax::Bool(..) => 2,
        ExprSyntax::VarOrConst(..) => 3,
        ExprSyntax::Label(..) => 4,
        ExprSyntax::Function(..) => 5,
        ExprSyntax::Minus(..) => 6,
        ExprSyntax::Multiplication(..) => 7,
        ExprSyntax::Division(..) => 8,
        ExprSyntax::Addition(..) => 9,
        ExprSyntax::Subtraction(..) => 10,
        ExprSyntax::LessThan(..) => 11,
        ExprSyntax::LessOrEqual(..) => 12,
        ExprSyntax::GreaterThan(..) => 13,
        ExprSyntax::GreaterOrEqual(..) => 14,
        ExprSyntax::Equals(..) => 15,
        ExprSyntax::NotEquals(..) => 16,
        ExprSyntax::Negation(..) => 17,
        ExprSyntax::Conjunction(..) => 18,
        ExprSyntax::Disjunction(..) => 19,
        ExprSyntax::IfAndOnlyIf(..) => 20,
        ExprSyntax::Implies(..) => 21,
        ExprSyntax::Ternary(..) => 22,
    }
}

/// The span of the outermost node of a read expression.
pub open spec fn syntax_span(x: ExprSyntax) -> Option<(usize, usize)> {
    match x {
        ExprSyntax::Int(_, s) => s,
        ExprSyntax::Float(_, s) => s,
        ExprSyntax::Bool(_, s) => s,
        ExprSyntax::VarOrConst(_, s) => s,
        ExprSyntax::Label(_, _, s) => s,
        ExprSyntax::Function(_, _, _, s) => s,
        ExprSyntax::Minus(_, s) => s,
        ExprSyntax::Multiplication(_, _, s) => s,
        ExprSyntax::Division(_, _, s) => s,
        ExprSyntax::Addition(_, _, s) => s,
        ExprSyntax::Subtraction(_, _, s) => s,
        ExprSyntax::LessThan(_, _, s) => s,
        ExprSyntax::LessOrEqual(_, _, s) => s,
        ExprSyntax::GreaterThan(_, _, s) => s,
        ExprSyntax::GreaterOrEqual(_, _, s) => s,
        ExprSyntax::Equals(_, _, s) => s,
        ExprSyntax::NotEquals(_, _, s) => s,
        ExprSyntax::Negation(_, s) => s,
        ExprSyntax::Conjunction(_, _, s) => s,
        ExprSyntax::Disjunction(_, _, s) => s,
        ExprSyntax::IfAndOnlyIf(_, _, s) => s,
        ExprSyntax::Implies(_, _, s) => s,
        ExprSyntax::Ternary(_, _, _, s) => s,
    }
}

/// The direct subexpressions of a read expression, left to right.
pub open spec fn syntax_children(x: ExprSyntax) -> Seq<ExprSyntax> {
    match x {
        ExprSyntax::Function(_, _, args, _) => args,
        ExprSyntax::Minus(a, _) => seq![*a],
        ExprSyntax::Multiplication(a, b, _) => seq![*a, *b],
        ExprSyntax::Division(a, b, _) => seq![*a, *b],
        ExprSyntax::Addition(a, b, _) => seq![*a, *b],
        ExprSyntax::Subtraction(a, b, _) => seq![*a, *b],
        ExprSyntax::LessThan(a, b, _) => seq![*a, *b],
        ExprSyntax::LessOrEqual(a, b, _) => seq![*a, *b],
        ExprSyntax::GreaterThan(a, b, _) => seq![*a, *b],
        ExprSyntax::GreaterOrEqual(a, b, _) => seq![*a, *b],
        ExprSyntax::Equals(a, b, _) => seq![*a, *b],
        ExprSyntax::NotEquals(a, b, _) => seq![*a, *b],
        ExprSyntax::Negation(a, _) => seq![*a],
        ExprSyntax::Conjunction(a, b, _) => seq![*a, *b],
        ExprSyntax::Disjunction(a, b, _) => seq![*a, *b],
        ExprSyntax::IfAndOnlyIf(a, b, _) => seq![*a, *b],
        ExprSyntax::Implies(a, b, _) => seq![*a, *b],
        ExprSyntax::Ternary(a, b, c, _) => seq![*a, *b, *c],
        _ => seq![],
    }
}

/// Whether the expression `e` is the one that the read expression `x` describes at its outermost
/// node, floating-point literals being read by `floats`.
pub open spec fn describes_node(
    e: Expression<Identifier<FullSpan>, FullSpan>,
    x: ExprSyntax,
    floats: spec_fn(Seq<char>) -> u64,
) -> bool {
    &&& syntax_kind(x) == kind(e)
    &&& span_of(e).spec_range() == syntax_span(x)
    &&& match (e, x) {
        (Expression::Int(a, _), ExprSyntax::Int(b, _)) => a == b,
        (Expression::Float(a, _), ExprSyntax::Float(t, _)) => a == floats(t),
        (Expression::Bool(a, _), ExprSyntax::Bool(b, _)) => a == b,
        (Expression::VarOrConst(id, _), ExprSyntax::VarOrConst(n, s)) => id.name@ == n
            && id.span.spec_range() == s,
        (Expression::Label(id, _), ExprSyntax::Label(n, ns, _)) => id.name@ == n
            && id.span.spec_range() == ns,
        (Expression::Function(id, _, _), ExprSyntax::Function(n, ns, _, _)) => id.name@ == n
            && id.span.spec_range() == ns,
        _ => true,
    }
}

/// Whether the expression `e` is the one that the read expression `x` describes, node by node.
pub open spec fn describes_expr(
    e: Expression<Identifier<FullSpan>, FullSpan>,
    x: ExprSyntax,
    floats: spec_fn(Seq<char>) -> u64,
) -> bool
    decreases e,
{
    &&& describes_node(e, x, floats)
    &&& syntax_children(x).len() == children(e).len()
    &&& forall|i: int|
        0 <= i < children(e).len() ==> {
            proof {
                crate::expressions::lemma_children_decrease(e, i);
            }
            describes_expr(#[trigger] children(e)[i], syntax_children(x)[i], floats)
        }
}

/// The value of a digit character (`0` for other characters).
pub open spec fn digit_value(c: char) -> nat {
    if '0' <= c && c <= '9' {
        ((c as int) - 48) as nat
    } else {
        0
    }
}

/// The value of a decimal numeral.
pub open spec fn decimal_value(t: Seq<char>) -> nat
    decreases t.len(),
{
    if t.len() == 0 {
        0
    } else {
        decimal_value(t.drop_last()) * 10 + digit_value(t.last())
    }
}

/// Every integer literal among the tokens fits in an `i64`.
pub open spec fn integers_fit(toks: TokensView) -> bool {
    forall|k: int|
        0 <= k < toks.len() ==> ((#[trigger] toks[k]).0 matches TokenValue::Integer(t) ==> decimal_value(t)
            <= i64::MAX)
}

/// `floats` accepts every text and gives one bit pattern for each.
pub open spec fn parses_floats<P: Fn(&str) -> u64>(floats: P) -> bool {
    &&& forall|s: &str| #[trigger] call_requires(floats, (s,))
    &&& forall|s1: &str, s2: &str, b1: u64, b2: u64|
        #![trigger call_ensures(floats, (s1,), b1), call_ensures(floats, (s2,), b2)]
        s1@ == s2@ && call_ensures(floats, (s1,), b1) && call_ensures(floats, (s2,), b2) ==> b1 == b2
}

/// `floats` may give `b` for the text `t`.
pub open spec fn reads_float<P: Fn(&str) -> u64>(floats: P, t: Seq<char>, b: u64) -> bool {
    exists|s: &str| s@ == t && #[trigger] call_ensures(floats, (s,), b)
}

/// The bit pattern that `floats` gives for each text.
pub open spec fn float_values<P: Fn(&str) -> u64>(floats: P) -> spec_fn(Seq<char>) -> u64 {
    |t: Seq<char>| choose|b: u64| #[trigger] reads_float(floats, t, b)
}

/// The error for tokens at `k` where an expression should start.
pub open spec fn no_expression(toks: TokensView, k: int, eoi: usize) -> ParserErrorValue {
    ParserErrorValue::ExpectedFound {
        span: span_at(toks, k, eoi),
        expected: seq![PatternValue::Label("expression"@)],
        found: found_at(toks, k),
    }
}

/// The error for the token at `k`, where one of `expected` should stand.
pub open spec fn expected_at(toks: TokensView, k: int, eoi: usize, expected: Seq<PatternValue>) -> ParserErrorValue {
    ParserErrorValue::ExpectedFound { span: span_at(toks, k, eoi), expected, found: found_at(toks, k) }
}

/// The span from the start of token `a` to the end of token `b - 1`.
pub open spec fn tokens_span(toks: TokensView, a: int, b: int, eoi: usize) -> Option<(usize, usize)> {
    Some((start_at(toks, a, eoi), range_end(toks[b - 1].1)))
}

/// Whether `t` is a binary operator of the given level.
pub open spec fn binary_op_of(level: int, t: TokenValue) -> bool {
    if level == 1 {
        t is Implies
    } else if level == 2 {
        t is IfAndOnlyIf
    } else if level == 3 {
        t is Or
    } else if level == 4 {
        t is And
    } else if level == 6 {
        t is Equal || t is NotEqual
    } else if level == 7 {
        t is LessThan || t is LessOrEqual || t is GreaterThan || t is GreaterOrEqual
    } else if level == 8 {
        t is Plus || t is Minus
    } else if level == 9 {
        t is Multiply || t is Divide
    } else {
        false
    }
}

/// The node for binary operator `t` applied to `a` and `b`.
pub open spec fn binary_node(t: TokenValue, a: ExprSyntax, b: ExprSyntax, s: Option<(usize, usize)>) -> ExprSyntax {
    match t {
        TokenValue::Implies => ExprSyntax::Implies(Box::new(a), Box::new(b), s),
        TokenValue::IfAndOnlyIf => ExprSyntax::IfAndOnlyIf(Box::new(a), Box::new(b), s),
        TokenValue::Or => ExprSyntax::Disjunction(Box::new(a), Box::new(b), s),
        TokenValue::And => ExprSyntax::Conjunction(Box::new(a), Box::new(b), s),
        TokenValue::Equal => ExprSyntax::Equals(Box::new(a), Box::new(b), s),
        TokenValue::NotEqual => ExprSyntax::NotEquals(Box::new(a), Box::new(b), s),
        TokenValue::LessThan => ExprSyntax::LessThan(Box::new(a), Box::new(b), s),
        TokenValue::LessOrEqual => ExprSyntax::LessOrEqual(Box::new(a), Box::new(b), s),
        TokenValue::GreaterThan => ExprSyntax::GreaterThan(Box::new(a), Box::new(b), s),
        TokenValue::GreaterOrEqual => ExprSyntax::GreaterOrEqual(Box::new(a), Box::new(b), s),
        TokenValue::Plus => ExprSyntax::Addition(Box::new(a), Box::new(b), s),
        TokenValue::Minus => ExprSyntax::Subtraction(Box::new(a), Box::new(b), s),
        TokenValue::Multiply => ExprSyntax::Multiplication(Box::new(a), Box::new(b), s),
        _ => ExprSyntax::Division(Box::new(a), Box::new(b), s),
    }
}

/// The name that the token at `k` gives a function: an identifier, or one of the words `min`,
/// `max` and `T`.
pub open spec fn function_name_at(toks: TokensView, k: int) -> Option<Seq<char>> {
    if 0 <= k < toks.len() {
        match toks[k].0 {
            TokenValue::Identifier(name) => Some(name),
            TokenValue::Min => Some("min"@),
            TokenValue::Max => Some("max"@),
            TokenValue::T => Some("T"@),
            _ => None,
        }
    } else {
        None
    }
}

/// Reads an expression of the given level (see the module documentation) that starts at token
/// `k`. Gives the expression and the index of the token after it.
pub open spec fn expression_at(toks: TokensView, k: int, level: int, eoi: usize) -> Result<
    (ExprSyntax, int),
    ParserErrorValue,
>
    decreases toks.len() - k, if level >= 11 {
        1
    } else {
        12 - level
    },
{
    if level <= 0 {
        match expression_at(toks, k, 1, eoi) {
            Err(e) => Err(e),
            Ok((c, j)) => if k <= j && token_is(toks, j, TokenValue::Questionmark) {
                match expression_at(toks, j + 1, 1, eoi) {
                    Err(e) => Err(e),
                    Ok((a, m)) => if j < m && token_is(toks, m, TokenValue::Colon) {
                        match expression_at(toks, m + 1, 1, eoi) {
                            Err(e) => Err(e),
                            Ok((b, n)) => Ok(
                                (
                                    ExprSyntax::Ternary(
                                        Box::new(c),
                                        Box::new(a),
                                        Box::new(b),
                                        tokens_span(toks, k, n, eoi),
                                    ),
                                    n,
                                ),
                            ),
                        }
                    } else {
                        Err(expected_at(toks, m, eoi, seq![PatternValue::Token(TokenValue::Colon)]))
                    },
                }
            } else {
                Ok((c, j))
            },
        }
    } else if level == 5 || level == 10 {
        let op = if level == 5 {
            TokenValue::Negation
        } else {
            TokenValue::Minus
        };
        if token_is(toks, k, op) {
            match expression_at(toks, k + 1, level, eoi) {
                Err(e) => Err(e),
                Ok((inner, j)) => {
                    let s = tokens_span(toks, k, j, eoi);
                    Ok(
                        (
                            if level == 5 {
                                ExprSyntax::Negation(Box::new(inner), s)
                            } else {
                                ExprSyntax::Minus(Box::new(inner), s)
                            },
                            j,
                        ),
                    )
                },
            }
        } else {
            expression_at(toks, k, level + 1, eoi)
        }
    } else if level >= 11 {
        atom_at(toks, k, eoi)
    } else {
        match expression_at(toks, k, level + 1, eoi) {
            Err(e) => Err(e),
            Ok((lhs, j)) => if k <= j <= toks.len() {
                fold_binary(toks, level, lhs, k, j, eoi)
            } else {
                Ok((lhs, j))
            },
        }
    }
}

/// Continues a binary level after the expression `lhs` that started at token `start`: while the
/// token at `j` is an operator of the level, reads the next operand and combines.
pub open spec fn fold_binary(
    toks: TokensView,
    level: int,
    lhs: ExprSyntax,
    start: int,
    j: int,
    eoi: usize,
) -> Result<(ExprSyntax, int), ParserErrorValue>
    decreases toks.len() - j, 0int,
{
    if 0 <= j < toks.len() && binary_op_of(level, toks[j].0) {
        match expression_at(toks, j + 1, level + 1, eoi) {
            Err(e) => Err(e),
            Ok((rhs, m)) => {
                let node = binary_node(toks[j].0, lhs, rhs, tokens_span(toks, start, m, eoi));
                if j < m <= toks.len() {
                    fold_binary(toks, level, node, start, m, eoi)
                } else {
                    Ok((node, m))
                }
            },
        }
    } else {
        Ok((lhs, j))
    }
}

/// Reads the arguments of a function call from token `k` on, up to and including the closing
/// `)`; `first` says whether `k` directly follows the opening `(`.
pub open spec fn arguments_from(toks: TokensView, k: int, eoi: usize, first: bool) -> Result<
    (Seq<ExprSyntax>, int),
    ParserErrorValue,
>
    decreases toks.len() - k, 21int,
{
    if first && token_is(toks, k, TokenValue::RightBracket) {
        Ok((seq![], k + 1))
    } else {
        match expression_at(toks, k, 0, eoi) {
            Err(e) => Err(e),
            Ok((a, j)) => if k <= j && token_is(toks, j, TokenValue::Comma) {
                match arguments_from(toks, j + 1, eoi, false) {
                    Err(e) => Err(e),
                    Ok((rest, m)) => Ok((seq![a] + rest, m)),
                }
            } else if token_is(toks, j, TokenValue::RightBracket) {
                Ok((seq![a], j + 1))
            } else {
                Err(
                    expected_at(
                        toks,
                        j,
                        eoi,
                        seq![
                            PatternValue::Token(TokenValue::Comma),
                            PatternValue::Token(TokenValue::RightBracket),
                        ],
                    ),
                )
            },
        }
    }
}

/// Reads an expression of the tightest level at token `k`: a literal, a parenthesised
/// expression, a function call, a variable, or a quoted label.
pub open spec fn atom_at(toks: TokensView, k: int, eoi: usize) -> Result<(ExprSyntax, int), ParserErrorValue>
    decreases toks.len() - k, 0int,
{
    if !(0 <= k < toks.len()) {
        Err(no_expression(toks, k, eoi))
    } else {
        match toks[k].0 {
            TokenValue::Float(t) => Ok((ExprSyntax::Float(t, toks[k].1), k + 1)),
            TokenValue::Integer(t) => Ok((ExprSyntax::Int(decimal_value(t) as i64, toks[k].1), k + 1)),
            TokenValue::True => Ok((ExprSyntax::Bool(true, toks[k].1), k + 1)),
            TokenValue::False => Ok((ExprSyntax::Bool(false, toks[k].1), k + 1)),
            TokenValue::LeftBracket => match expression_at(toks, k + 1, 0, eoi) {
                Err(e) => Err(e),
                Ok((inner, j)) => if token_is(toks, j, TokenValue::RightBracket) {
                    Ok((inner, j + 1))
                } else {
                    Err(expected_at(toks, j, eoi, seq![PatternValue::Token(TokenValue::RightBracket)]))
                },
            },
            TokenValue::Quote => match key_at(toks, k + 1) {
                None => Err(expected_at(toks, k + 1, eoi, seq![PatternValue::Label("identifier"@)])),
                Some(name) => if name_error(name, false) is Some {
                    Err(ParserErrorValue::InvalidIdentifierName { span: toks[k + 1].1, name })
                } else if token_is(toks, k + 2, TokenValue::Quote) {
                    Ok((ExprSyntax::Label(name, toks[k + 1].1, tokens_span(toks, k, k + 3, eoi)), k + 3))
                } else {
                    Err(expected_at(toks, k + 2, eoi, seq![PatternValue::Token(TokenValue::Quote)]))
                },
            },
            _ => if function_name_at(toks, k) is Some && token_is(toks, k + 1, TokenValue::LeftBracket) {
                let name = function_name_at(toks, k)->0;
                if name_error(name, true) is Some {
                    Err(ParserErrorValue::InvalidIdentifierName { span: toks[k].1, name })
                } else {
                    match arguments_from(toks, k + 2, eoi, true) {
                        Err(e) => Err(e),
                        Ok((args, j)) => Ok(
                            (ExprSyntax::Function(name, toks[k].1, args, tokens_span(toks, k, j, eoi)), j),
                        ),
                    }
                }
            } else if key_at(toks, k) is Some {
                let name = key_at(toks, k)->0;
                if name_error(name, false) is Some {
                    Err(ParserErrorValue::InvalidIdentifierName { span: toks[k].1, name })
                } else {
                    Ok((ExprSyntax::VarOrConst(name, toks[k].1), k + 1))
                }
            } else if function_name_at(toks, k) is Some {
                Err(expected_at(toks, k + 1, eoi, seq![PatternValue::Token(TokenValue::LeftBracket)]))
            } else {
                Err(no_expression(toks, k, eoi))
            },
        }
    }
}

/// Reads a whole input that holds one expression.
pub open spec fn whole_expression(toks: TokensView, eoi: usize) -> Result<ExprSyntax, ParserErrorValue> {
    match expression_at(toks, 0, 0, eoi) {
        Err(e) => Err(e),
        Ok((x, j)) => if j < toks.len() {
            Err(expected_at(toks, j, eoi, seq![PatternValue::EndOfInput]))
        } else {
            Ok(x)
        },
    }
}

/// Whether the token at `k` is `t`.
pub fn token_at_is(tokens: &Vec<(Token, FullSpan)>, k: usize, t: &Token) -> (r: bool)
    requires
        crate::token::is_plain(t@),
    ensures
        r == token_is(lexed_view(tokens@), k as int, t@),
{
    k < tokens.len() && tokens[k].0.is(t)
}

pub(crate) fn span_of_token(tokens: &Vec<(Token, FullSpan)>, k: usize, eoi: usize) -> (r: FullSpan)
    ensures
        r.spec_range() == span_at(lexed_view(tokens@), k as int, eoi),
{
    if k < tokens.len() {
        tokens[k].1
    } else {
        FullSpan::from_range(eoi..eoi)
    }
}

pub(crate) fn found_token_at(tokens: &Vec<(Token, FullSpan)>, k: usize) -> (r: Option<Token>)
    ensures
        match (r, found_at(lexed_view(tokens@), k as int)) {
            (Some(t), Some(v)) => t@ == v,
            (None, None) => true,
            _ => false,
        },
{
    if k < tokens.len() {
        Some(tokens[k].0.duplicate())
    } else {
        None
    }
}

/// The error `expected_at` for the token at `k`.
pub(crate) fn expected_error(tokens: &Vec<(Token, FullSpan)>, k: usize, eoi: usize, expected: Vec<Pattern>) -> (r: ParserError)
    ensures
        describes_error(r, expected_at(lexed_view(tokens@), k as int, eoi, patterns_view(expected@))),
{
    ParserError::ExpectedFound {
        help: help_for_expected(&expected),
        span: span_of_token(tokens, k, eoi),
        expected,
        found: found_token_at(tokens, k),
    }
}

fn no_expression_error(tokens: &Vec<(Token, FullSpan)>, k: usize, eoi: usize) -> (r: ParserError)
    ensures
        describes_error(r, no_expression(lexed_view(tokens@), k as int, eoi)),
{
    let expected = vec![Pattern::Label(String::from_str("expression"))];
    assert(patterns_view(expected@) =~= seq![PatternValue::Label("expression"@)]);
    expected_error(tokens, k, eoi, expected)
}

/// The span from the start of token `a` to the end of token `b - 1`.
pub(crate) fn span_between(tokens: &Vec<(Token, FullSpan)>, a: usize, b: usize, eoi: usize) -> (r: FullSpan)
    requires
        a < b <= tokens@.len(),
        spans_tracked(lexed_view(tokens@)),
    ensures
        r.spec_range() == tokens_span(lexed_view(tokens@), a as int, b as int, eoi),
{
    assert(lexed_view(tokens@)[a as int].1 is Some);
    assert(lexed_view(tokens@)[b - 1].1 is Some);
    let start = tokens[a].1.start().unwrap();
    let end = tokens[b - 1].1.end().unwrap();
    FullSpan::from_range(start..end)
}

proof fn lemma_decimal_prefix(t: Seq<char>, i: int)
    requires
        0 <= i < t.len(),
    ensures
        decimal_value(t.take(i + 1)) == decimal_value(t.take(i)) * 10 + digit_value(t[i]),
        decimal_value(t.take(i)) <= decimal_value(t.take(i + 1)),
{
    assert(t.take(i + 1).drop_last() =~= t.take(i));
}

proof fn lemma_decimal_monotone(t: Seq<char>, i: int)
    requires
        0 <= i <= t.len(),
    ensures
        decimal_value(t.take(i)) <= decimal_value(t),
    decreases t.len() - i,
{
    if i < t.len() {
        lemma_decimal_prefix(t, i);
        lemma_decimal_monotone(t, i + 1);
    } else {
        assert(t.take(i) =~= t);
    }
}

/// The value of an integer literal.
fn integer_value(text: &String) -> (r: i64)
    requires
        decimal_value(text@) <= i64::MAX,
    ensures
        r as int == decimal_value(text@),
{
    let chars = crate::text::chars_of(text.as_str());
    let mut v: u64 = 0;
    let mut i: usize = 0;
    assert(text@.take(0) =~= Seq::<char>::empty());
    while i < chars.len()
        invariant
            chars@ == text@,
            i <= chars@.len(),
            v == decimal_value(text@.take(i as int)),
            decimal_value(text@) <= i64::MAX,
        decreases chars@.len() - i,
    {
        proof {
            lemma_decimal_prefix(text@, i as int);
            lemma_decimal_monotone(text@, i as int + 1);
        }
        let c = chars[i];
        let d: u64 = if '0' <= c && c <= '9' {
            (c as u32 - 48) as u64
        } else {
            0
        };
        v = v * 10 + d;
        i = i + 1;
    }
    assert(text@.take(i as int) =~= text@);
    v as i64
}

/// The bit pattern of a floating-point literal.
fn float_bits<P: Fn(&str) -> u64>(floats: &P, text: &String) -> (r: u64)
    requires
        parses_floats(*floats),
    ensures
        r == float_values(*floats)(text@),
{
    let s = text.as_str();
    let b = floats(s);
    proof {
        assert(reads_float(*floats, text@, b));
        let c = choose|c: u64| reads_float(*floats, text@, c);
        assert(reads_float(*floats, text@, c));
        let s2 = choose|s2: &str| s2@ == text@ && #[trigger] call_ensures(*floats, (s2,), c);
        assert(call_ensures(*floats, (s2,), c));
    }
    b
}

/// Whether the token at `j` is a binary operator of the given level.
fn binary_op_exec(tokens: &Vec<(Token, FullSpan)>, j: usize, level: usize) -> (r: bool)
    ensures
        r == (j < tokens@.len() && binary_op_of(level as int, lexed_view(tokens@)[j as int].0)),
{
    if j >= tokens.len() {
        return false;
    }
    let t = &tokens[j].0;
    match level {
        1 => t.is(&Token::Implies),
        2 => t.is(&Token::IfAndOnlyIf),
        3 => t.is(&Token::Or),
        4 => t.is(&Token::And),
        6 => t.is(&Token::Equal) || t.is(&Token::NotEqual),
        7 => t.is(&Token::LessThan) || t.is(&Token::LessOrEqual) || t.is(&Token::GreaterThan) || t.is(
            &Token::GreaterOrEqual,
        ),
        8 => t.is(&Token::Plus) || t.is(&Token::Minus),
        9 => t.is(&Token::Multiply) || t.is(&Token::Divide),
        _ => false,
    }
}

pub(crate) type Expr = Expression<Identifier<FullSpan>, FullSpan>;

/// The node for the binary operator `op` applied to `a` and `b`.
fn make_binary(
    op: &Token,
    a: Expr,
    b: Expr,
    span: FullSpan,
    Ghost(ya): Ghost<ExprSyntax>,
    Ghost(yb): Ghost<ExprSyntax>,
    Ghost(fl): Ghost<spec_fn(Seq<char>) -> u64>,
) -> (r: Expr)
    requires
        exists|level: int| binary_op_of(level, op@),
        describes_expr(a, ya, fl),
        describes_expr(b, yb, fl),
    ensures
        describes_expr(r, binary_node(op@, ya, yb, span.spec_range()), fl),
{
    let r = match op {
            Token::Implies => Expression::Implies(Box::new(a), Box::new(b), span),
            Token::IfAndOnlyIf => Expression::IfAndOnlyIf(Box::new(a), Box::new(b), span),
            Token::Or => Expression::Disjunction(Box::new(a), Box::new(b), span),
            Token::And => Expression::Conjunction(Box::new(a), Box::new(b), span),
            Token::Equal => Expression::Equals(Box::new(a), Box::new(b), span),
            Token::NotEqual => Expression::NotEquals(Box::new(a), Box::new(b), span),
            Token::LessThan => Expression::LessThan(Box::new(a), Box::new(b), span),
            Token::LessOrEqual => Expression::LessOrEqual(Box::new(a), Box::new(b), span),
            Token::GreaterThan => Expression::GreaterThan(Box::new(a), Box::new(b), span),
            Token::GreaterOrEqual => Expression::GreaterOrEqual(Box::new(a), Box::new(b), span),
            Token::Plus => Expression::Addition(Box::new(a), Box::new(b), span),
            Token::Minus => Expression::Subtraction(Box::new(a), Box::new(b), span),
            Token::Multiply => Expression::Multiplication(Box::new(a), Box::new(b), span),
            _ => Expression::Division(Box::new(a), Box::new(b), span),
    };
    assert(children(r) =~= seq![a, b]);
    assert(syntax_children(binary_node(op@, ya, yb, span.spec_range())) =~= seq![ya, yb]);
    r
}

/// Reads an expression of the given level at token `k`; see [`expression_at`].
pub(crate) fn expression_exec<P: Fn(&str) -> u64>(
    tokens: &Vec<(Token, FullSpan)>,
    k: usize,
    level: usize,
    eoi: usize,
    floats: &P,
) -> (r: Result<(Expr, usize), ParserError>)
    requires
        k <= tokens@.len() <= usize::MAX,
        level <= 11,
        spans_tracked(lexed_view(tokens@)),
        integers_fit(lexed_view(tokens@)),
        parses_floats(*floats),
    ensures
        match (r, expression_at(lexed_view(tokens@), k as int, level as int, eoi)) {
            (Ok((e, j)), Ok((x, m))) => describes_expr(e, x, float_values(*floats)) && j == m && k < j
                <= tokens@.len(),
            (Err(e), Err(v)) => describes_error(e, v),
            _ => false,
        },
    decreases tokens@.len() - k, if level >= 11 {
        1int
    } else {
        12 - level
    },
{
    let ghost toks = lexed_view(tokens@);
    let ghost fl = float_values(*floats);
    if level == 0 {
        let (c, j) = match expression_exec(tokens, k, 1, eoi, floats) {
            Err(e) => {
                return Err(e);
            },
            Ok(p) => p,
        };
        let ghost yc = expression_at(toks, k as int, 1, eoi)->Ok_0.0;
        if !token_at_is(tokens, j, &Token::Questionmark) {
            return Ok((c, j));
        }
        let (a, m) = match expression_exec(tokens, j + 1, 1, eoi, floats) {
            Err(e) => {
                return Err(e);
            },
            Ok(p) => p,
        };
        let ghost ya = expression_at(toks, j + 1, 1, eoi)->Ok_0.0;
        if !token_at_is(tokens, m, &Token::Colon) {
            let expected = vec![Pattern::Token(Token::Colon)];
            assert(patterns_view(expected@) =~= seq![PatternValue::Token(TokenValue::Colon)]);
            return Err(expected_error(tokens, m, eoi, expected));
        }
        let (b, n) = match expression_exec(tokens, m + 1, 1, eoi, floats) {
            Err(e) => {
                return Err(e);
            },
            Ok(p) => p,
        };
        let ghost yb = expression_at(toks, m + 1, 1, eoi)->Ok_0.0;
        let span = span_between(tokens, k, n, eoi);
        let r = Expression::Ternary(Box::new(c), Box::new(a), Box::new(b), span);
        proof {
            let x = ExprSyntax::Ternary(Box::new(yc), Box::new(ya), Box::new(yb), span.spec_range());
            assert(children(r) =~= seq![c, a, b]);
            assert(syntax_children(x) =~= seq![yc, ya, yb]);
            assert(describes_expr(r, x, fl));
        }
        Ok((r, n))
    } else if level == 5 || level == 10 {
        let op = if level == 5 {
            Token::Negation
        } else {
            Token::Minus
        };
        if !token_at_is(tokens, k, &op) {
            return expression_exec(tokens, k, level + 1, eoi, floats);
        }
        let (inner, j) = match expression_exec(tokens, k + 1, level, eoi, floats) {
            Err(e) => {
                return Err(e);
            },
            Ok(p) => p,
        };
        let ghost yi = expression_at(toks, k + 1, level as int, eoi)->Ok_0.0;
        let span = span_between(tokens, k, j, eoi);
        let r = if level == 5 {
            Expression::Negation(Box::new(inner), span)
        } else {
            Expression::Minus(Box::new(inner), span)
        };
        proof {
            let x = if level == 5 {
                ExprSyntax::Negation(Box::new(yi), span.spec_range())
            } else {
                ExprSyntax::Minus(Box::new(yi), span.spec_range())
            };
            assert(children(r) =~= seq![inner]);
            assert(syntax_children(x) =~= seq![yi]);
            assert(describes_expr(r, x, fl));
        }
        Ok((r, j))
    } else if level >= 11 {
        atom_exec(tokens, k, eoi, floats)
    } else {
        let (lhs, j0) = match expression_exec(tokens, k, level + 1, eoi, floats) {
            Err(e) => {
                return Err(e);
            },
            Ok(p) => p,
        };
        let ghost ylhs = expression_at(toks, k as int, level + 1, eoi)->Ok_0.0;
        let mut cur = lhs;
        let mut j = j0;
        let ghost mut ycur = ylhs;
        assert(expression_at(toks, k as int, level as int, eoi) == fold_binary(
            toks,
            level as int,
            ylhs,
            k as int,
            j0 as int,
            eoi,
        ));
        while binary_op_exec(tokens, j, level)
            invariant
                toks == lexed_view(tokens@),
                expression_at(toks, k as int, level as int, eoi) == fold_binary(
                    toks,
                    level as int,
                    ylhs,
                    k as int,
                    j0 as int,
                    eoi,
                ),
                fl == float_values(*floats),
                k < j <= tokens@.len() <= usize::MAX,
                1 <= level <= 9,
                level != 5,
                spans_tracked(toks),
                integers_fit(toks),
                parses_floats(*floats),
                describes_expr(cur, ycur, fl),
                fold_binary(toks, level as int, ycur, k as int, j as int, eoi) == fold_binary(
                    toks,
                    level as int,
                    ylhs,
                    k as int,
                    j0 as int,
                    eoi,
                ),
            decreases tokens@.len() - j,
        {
            let (rhs, m) = match expression_exec(tokens, j + 1, level + 1, eoi, floats) {
                Err(e) => {
                    return Err(e);
                },
                Ok(p) => p,
            };
            let ghost yr = expression_at(toks, j + 1, level + 1, eoi)->Ok_0.0;
            let span = span_between(tokens, k, m, eoi);
            cur = make_binary(&tokens[j].0, cur, rhs, span, Ghost(ycur), Ghost(yr), Ghost(fl));
            proof {
                ycur = binary_node(toks[j as int].0, ycur, yr, span.spec_range());
            }
            j = m;
        }
        Ok((cur, j))
    }
}

/// Reads the arguments of a function call from token `k` on; see [`arguments_from`].
fn arguments_exec<P: Fn(&str) -> u64>(
    tokens: &Vec<(Token, FullSpan)>,
    k: usize,
    eoi: usize,
    floats: &P,
) -> (r: Result<(Vec<Expr>, usize), ParserError>)
    requires
        k <= tokens@.len() <= usize::MAX,
        spans_tracked(lexed_view(tokens@)),
        integers_fit(lexed_view(tokens@)),
        parses_floats(*floats),
    ensures
        match (r, arguments_from(lexed_view(tokens@), k as int, eoi, true)) {
            (Ok((v, j)), Ok((xs, m))) => v@.len() == xs.len() && (forall|i: int|
                0 <= i < xs.len() ==> describes_expr(#[trigger] v@[i], xs[i], float_values(*floats)))
                && j == m && k < j <= tokens@.len(),
            (Err(e), Err(v)) => describes_error(e, v),
            _ => false,
        },
    decreases tokens@.len() - k, 21int,
{
    let ghost toks = lexed_view(tokens@);
    let ghost fl = float_values(*floats);
    let mut out: Vec<Expr> = Vec::new();
    let ghost mut done: Seq<ExprSyntax> = seq![];
    let mut i = k;
    let mut first = true;
    loop
        invariant
            toks == lexed_view(tokens@),
            fl == float_values(*floats),
            k <= i <= tokens@.len() <= usize::MAX,
            first ==> i == k,
            spans_tracked(toks),
            integers_fit(toks),
            parses_floats(*floats),
            out@.len() == done.len(),
            forall|p: int| 0 <= p < done.len() ==> describes_expr(#[trigger] out@[p], done[p], fl),
            match arguments_from(toks, i as int, eoi, first) {
                Ok((rest, m)) => arguments_from(toks, k as int, eoi, true) == Ok::<
                    (Seq<ExprSyntax>, int),
                    ParserErrorValue,
                >((done + rest, m)),
                Err(e) => arguments_from(toks, k as int, eoi, true) == Err::<
                    (Seq<ExprSyntax>, int),
                    ParserErrorValue,
                >(e),
            },
        decreases tokens@.len() - i,
    {
        if first && token_at_is(tokens, i, &Token::RightBracket) {
            assert(done + seq![] =~= done);
            return Ok((out, i + 1));
        }
        let (a, j) = match expression_exec(tokens, i, 0, eoi, floats) {
            Err(e) => {
                return Err(e);
            },
            Ok(p) => p,
        };
        let ghost ya = expression_at(toks, i as int, 0, eoi)->Ok_0.0;
        if token_at_is(tokens, j, &Token::Comma) {
            proof {
                match arguments_from(toks, j + 1, eoi, false) {
                    Ok((rest, m)) => {
                        assert(done + (seq![ya] + rest) =~= done.push(ya) + rest);
                    },
                    Err(_) => {},
                }
                done = done.push(ya);
            }
            out.push(a);
            i = j + 1;
            first = false;
        } else if token_at_is(tokens, j, &Token::RightBracket) {
            proof {
                assert(done + seq![ya] =~= done.push(ya));
                done = done.push(ya);
            }
            out.push(a);
            return Ok((out, j + 1));
        } else {
            let expected = vec![Pattern::Token(Token::Comma), Pattern::Token(Token::RightBracket)];
            assert(patterns_view(expected@) =~= seq![
                PatternValue::Token(TokenValue::Comma),
                PatternValue::Token(TokenValue::RightBracket),
            ]);
            return Err(expected_error(tokens, j, eoi, expected));
        }
    }
}

/// The name that the token at `k` gives a function; see [`function_name_at`].
fn function_name_exec(tokens: &Vec<(Token, FullSpan)>, k: usize) -> (r: Option<String>)
    ensures
        match (r, function_name_at(lexed_view(tokens@), k as int)) {
            (Some(n), Some(m)) => n@ == m,
            (None, None) => true,
            _ => false,
        },
{
    if k < tokens.len() {
        match &tokens[k].0 {
            Token::Identifier(name) => Some(name.clone()),
            Token::Min => Some(String::from_str("min")),
            Token::Max => Some(String::from_str("max")),
            Token::T => Some(String::from_str("T")),
            _ => None,
        }
    } else {
        None
    }
}

/// The key that the token at `k` can stand for; see [`key_at`].
pub(crate) fn key_name_exec(tokens: &Vec<(Token, FullSpan)>, k: usize) -> (r: Option<String>)
    ensures
        match (r, key_at(lexed_view(tokens@), k as int)) {
            (Some(n), Some(m)) => n@ == m,
            (None, None) => true,
            _ => false,
        },
{
    if k < tokens.len() {
        match &tokens[k].0 {
            Token::Identifier(name) => Some(name.clone()),
            Token::T => Some(String::from_str("T")),
            _ => None,
        }
    } else {
        None
    }
}

/// Reads an expression of the tightest level at token `k`; see [`atom_at`].
fn atom_exec<P: Fn(&str) -> u64>(
    tokens: &Vec<(Token, FullSpan)>,
    k: usize,
    eoi: usize,
    floats: &P,
) -> (r: Result<(Expr, usize), ParserError>)
    requires
        k <= tokens@.len() <= usize::MAX,
        spans_tracked(lexed_view(tokens@)),
        integers_fit(lexed_view(tokens@)),
        parses_floats(*floats),
    ensures
        match (r, atom_at(lexed_view(tokens@), k as int, eoi)) {
            (Ok((e, j)), Ok((x, m))) => describes_expr(e, x, float_values(*floats)) && j == m && k < j
                <= tokens@.len(),
            (Err(e), Err(v)) => describes_error(e, v),
            _ => false,
        },
    decreases tokens@.len() - k, 0int,
{
    let ghost toks = lexed_view(tokens@);
    let ghost fl = float_values(*floats);
    if k >= tokens.len() {
        return Err(no_expression_error(tokens, k, eoi));
    }
    let span = tokens[k].1;
    assert(span.spec_range() == toks[k as int].1);
    match &tokens[k].0 {
        Token::Float(t) => {
            let b = float_bits(floats, t);
            let r = Expression::Float(b, span);
            assert(children(r) =~= seq![]);
            return Ok((r, k + 1));
        },
        Token::Integer(t) => {
            assert(toks[k as int].0 matches TokenValue::Integer(u) && u == t@);
            let v = integer_value(t);
            let r = Expression::Int(v, span);
            assert(children(r) =~= seq![]);
            return Ok((r, k + 1));
        },
        Token::True => {
            let r = Expression::Bool(true, span);
            assert(children(r) =~= seq![]);
            return Ok((r, k + 1));
        },
        Token::False => {
            let r = Expression::Bool(false, span);
            assert(children(r) =~= seq![]);
            return Ok((r, k + 1));
        },
        Token::LeftBracket => {
            let (inner, j) = match expression_exec(tokens, k + 1, 0, eoi, floats) {
                Err(e) => {
                    return Err(e);
                },
                Ok(p) => p,
            };
            if token_at_is(tokens, j, &Token::RightBracket) {
                return Ok((inner, j + 1));
            } else {
                let expected = vec![Pattern::Token(Token::RightBracket)];
                assert(patterns_view(expected@) =~= seq![PatternValue::Token(TokenValue::RightBracket)]);
                return Err(expected_error(tokens, j, eoi, expected));
            }
        },
        Token::Quote => {
            let name = match key_name_exec(tokens, k + 1) {
                None => {
                    let expected = vec![Pattern::Label(String::from_str("identifier"))];
                    assert(patterns_view(expected@) =~= seq![PatternValue::Label("identifier"@)]);
                    return Err(expected_error(tokens, k + 1, eoi, expected));
                },
                Some(n) => n,
            };
            let name_span = tokens[k + 1].1;
            let id = match Identifier::new_spanned(name.as_str(), name_span) {
                Err(reason) => {
                    return Err(
                        ParserError::Validation(
                            ValidationError::InvalidIdentifierName { span: name_span, reason },
                        ),
                    );
                },
                Ok(id) => id,
            };
            if !token_at_is(tokens, k + 2, &Token::Quote) {
                let expected = vec![Pattern::Token(Token::Quote)];
                assert(patterns_view(expected@) =~= seq![PatternValue::Token(TokenValue::Quote)]);
                return Err(expected_error(tokens, k + 2, eoi, expected));
            }
            let whole = span_between(tokens, k, k + 3, eoi);
            let r = Expression::Label(id, whole);
            assert(children(r) =~= seq![]);
            return Ok((r, k + 3));
        },
        _ => {},
    }
    let fname = function_name_exec(tokens, k);
    if fname.is_some() && token_at_is(tokens, k + 1, &Token::LeftBracket) {
        let name = fname.unwrap();
        let id = match Identifier::new_potentially_reserved_spanned(name.as_str(), span) {
            Err(reason) => {
                return Err(
                    ParserError::Validation(ValidationError::InvalidIdentifierName { span, reason }),
                );
            },
            Ok(id) => id,
        };
        let (args, j) = match arguments_exec(tokens, k + 2, eoi, floats) {
            Err(e) => {
                return Err(e);
            },
            Ok(p) => p,
        };
        let ghost xs = arguments_from(toks, k + 2, eoi, true)->Ok_0.0;
        let whole = span_between(tokens, k, j, eoi);
        let r = Expression::Function(id, args, whole);
        proof {
            let x = ExprSyntax::Function(name@, span.spec_range(), xs, whole.spec_range());
            assert(children(r) == args@);
            assert(syntax_children(x) == xs);
            assert(describes_expr(r, x, fl));
        }
        return Ok((r, j));
    }
    match key_name_exec(tokens, k) {
        Some(name) => {
            match Identifier::new_spanned(name.as_str(), span) {
                Err(reason) => Err(
                    ParserError::Validation(ValidationError::InvalidIdentifierName { span, reason }),
                ),
                Ok(id) => {
                    let r = Expression::VarOrConst(id, span);
                    assert(children(r) =~= seq![]);
                    Ok((r, k + 1))
                },
            }
        },
        None => if fname.is_some() {
            let expected = vec![Pattern::Token(Token::LeftBracket)];
            assert(patterns_view(expected@) =~= seq![PatternValue::Token(TokenValue::LeftBracket)]);
            Err(expected_error(tokens, k + 1, eoi, expected))
        } else {
            Err(no_expression_error(tokens, k, eoi))
        },
    }
}

/// Every integer literal of the source text fits in an `i64` (if the text can be split into
/// tokens at all).
pub open spec fn source_integers_fit(s: Seq<char>) -> bool {
    lex(s) matches Ok(toks) ==> integers_fit(toks)
}

pub(crate) proof fn lemma_lexed_tracked(s: Seq<char>)
    requires
        lex(s) is Ok,
    ensures
        spans_tracked(lex(s)->Ok_0),
{
}

/// Reads an expression that makes up the whole of `source`, floating-point literals being read
/// by `floats`. Gives the expression and the span of the input's tokens.
pub fn expression_parser<P: Fn(&str) -> u64>(source: &str, floats: &P) -> (r: Result<
    (Expr, FullSpan),
    ParserError,
>)
    requires
        parses_floats(*floats),
        source_integers_fit(source@),
    ensures
        match lex(source@) {
            Err((span, found)) => r matches Err(e) && describes_error(
                e,
                ParserErrorValue::UnexpectedCharacter { span, found },
            ),
            Ok(toks) => match whole_expression(toks, crate::attribute_parser::input_end(source@)) {
                Ok(x) => r matches Ok((e, sp)) && describes_expr(e, x, float_values(*floats))
                    && sp.spec_range() == tokens_span(
                    toks,
                    0,
                    toks.len() as int,
                    crate::attribute_parser::input_end(source@),
                ),
                Err(v) => r matches Err(e) && describes_error(e, v),
            },
        },
{
    let eoi = source.as_bytes().len();
    let tokens = match raw_lex(source) {
        Err(mut errors) => {
            return Err(ParserError::from_lex_error(errors.remove(0)));
        },
        Ok(t) => t,
    };
    let n = tokens.len();
    proof {
        lemma_lexed_tracked(source@);
    }
    let (e, j) = match expression_exec(&tokens, 0, 0, eoi, floats) {
        Err(e) => {
            return Err(e);
        },
        Ok(p) => p,
    };
    if j < n {
        let expected = vec![Pattern::EndOfInput];
        assert(patterns_view(expected@) =~= seq![PatternValue::EndOfInput]);
        return Err(expected_error(&tokens, j, eoi, expected));
    }
    let span = span_between(&tokens, 0, n, eoi);
    Ok((e, span))
}

} // verus!
