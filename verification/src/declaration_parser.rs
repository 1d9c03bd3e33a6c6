//! Reads the declarations of a PRISM model from tokens: variable domains, constants, variables,
//! labels, formulas, initial-state constraints, commands, modules, renamed modules and reward
//! structures.
use crate::attribute_parser::{key_at, spans_tracked, start_at, token_is, TokensView};
use crate::command::{Assignment, Command, Update};
use crate::expression_parser::{describes_expr, expected_at, expected_error, expression_at, expression_exec, float_values, integers_fit, key_name_exec, parses_floats, span_between, token_at_is, tokens_span, ExprSyntax};
use crate::lexer::lexed_view;
use crate::parse_error::{describes_error, patterns_view, ParserError, Pattern, ValidationError};
use crate::token::Token;
use crate::variables::VariableInfo;
use vstd::string::StringExecFns;
use crate::expressions::Expression;
use crate::formulas::Formula;
use crate::identifier::{name_error, Identifier};
use crate::labels::Label;
use crate::module::{Module, RenamedModule};
use crate::parse_error::{ParserErrorValue, PatternValue};
use crate::rewards::{Rewards, RewardsElement, RewardsTarget};
use crate::spans::{FullSpan, Span};
use crate::token::TokenValue;
use crate::variables::VariableRange;
use vstd::prelude::*;

verus! {

/// A span as a range.
pub type Sp = Option<(usize, usize)>;

/// A variable domain as read from tokens.
pub enum RangeSyntax {
    /// `[min..max]`.
    BoundedInt(ExprSyntax, ExprSyntax, Sp),
    /// `int`.
    UnboundedInt(Sp),
    /// `bool`.
    Boolean(Sp),
    /// `double`.
    Float(Sp),
}

/// A declaration of a constant or variable as read from tokens.
pub struct VariableSyntax {
    /// The name and its span.
    pub name: (Seq<char>, Sp),
    /// The domain.
    pub range: RangeSyntax,
    /// The initial value (for a constant: its value), if given.
    pub initial: Option<ExprSyntax>,
    /// The span of the declaration.
    pub span: Sp,
}

/// An assignment `(x'=e)` as read from tokens.
pub struct AssignmentSyntax {
    /// The assigned variable and its span.
    pub target: (Seq<char>, Sp),
    /// The assigned value.
    pub value: ExprSyntax,
    /// The span from `(` to `)`.
    pub span: Sp,
}

/// An update `p : a1 & a2 & ...` as read from tokens.
pub struct UpdateSyntax {
    /// The probability (the literal `1` with an empty span where none is written).
    pub probability: ExprSyntax,
    /// The assignments.
    pub assignments: Seq<AssignmentSyntax>,
    /// The span of the update.
    pub span: Sp,
}

/// A command `[a] g -> u1 + u2 + ...;` as read from tokens.
pub struct CommandSyntax {
    /// The action and its span, if there is one.
    pub action: Option<(Seq<char>, Sp)>,
    /// The span of `[a]`.
    pub action_span: Sp,
    /// The guard.
    pub guard: ExprSyntax,
    /// The updates.
    pub updates: Seq<UpdateSyntax>,
    /// The span of the command.
    pub span: Sp,
}

/// A module as read from tokens: its commands and, apart, its variables.
pub struct ModuleSyntax {
    /// The name and its span.
    pub name: (Seq<char>, Sp),
    /// The commands, in order.
    pub commands: Seq<CommandSyntax>,
    /// The variable declarations, in order.
    pub variables: Seq<VariableSyntax>,
    /// The span of the module.
    pub span: Sp,
}

/// A renaming rule `old = new` as read from tokens.
pub struct RenameRuleSyntax {
    /// The old name and its span.
    pub old_name: (Seq<char>, Sp),
    /// The new name and its span.
    pub new_name: (Seq<char>, Sp),
    /// The span of the rule.
    pub span: Sp,
}

/// A renamed module `module new = old [rules] endmodule` as read from tokens.
pub struct RenamedModuleSyntax {
    /// The name of the copied module and its span.
    pub old_name: (Seq<char>, Sp),
    /// The name of the new module and its span.
    pub new_name: (Seq<char>, Sp),
    /// The renaming rules.
    pub rules: Seq<RenameRuleSyntax>,
    /// The span of the definition.
    pub span: Sp,
}

/// A label or formula definition as read from tokens.
pub struct DefinitionSyntax {
    /// The name and its span.
    pub name: (Seq<char>, Sp),
    /// The defining expression.
    pub condition: ExprSyntax,
    /// The span of the definition.
    pub span: Sp,
}

/// An entry of a reward structure as read from tokens.
pub struct RewardsElementSyntax {
    /// `None` for a state reward; `Some(action)` for a transition reward, with the action and its
    /// span if one is named.
    pub target: Option<Option<(Seq<char>, Sp)>>,
    /// The condition.
    pub condition: ExprSyntax,
    /// The reward value.
    pub value: ExprSyntax,
    /// The span of the entry.
    pub span: Sp,
}

/// A reward structure as read from tokens.
pub struct RewardsSyntax {
    /// The name and its span, if the structure is named.
    pub name: Option<(Seq<char>, Sp)>,
    /// The entries.
    pub entries: Seq<RewardsElementSyntax>,
    /// The span of the structure.
    pub span: Sp,
}

type Expr = Expression<Identifier<FullSpan>, FullSpan>;

/// The identifier `id` has the given name and span.
pub open spec fn describes_name(id: Identifier<FullSpan>, n: (Seq<char>, Sp)) -> bool {
    id.name@ == n.0 && id.span.spec_range() == n.1
}

/// The domain `r` is the one that `x` describes.
pub open spec fn describes_range(
    r: VariableRange<FullSpan, Expr>,
    x: RangeSyntax,
    fl: spec_fn(Seq<char>) -> u64,
) -> bool {
    match (r, x) {
        (VariableRange::BoundedInt { min, max, span }, RangeSyntax::BoundedInt(a, b, s)) => describes_expr(
            min,
            a,
            fl,
        ) && describes_expr(max, b, fl) && span.spec_range() == s,
        (VariableRange::UnboundedInt { span }, RangeSyntax::UnboundedInt(s)) => span.spec_range() == s,
        (VariableRange::Boolean { span }, RangeSyntax::Boolean(s)) => span.spec_range() == s,
        (VariableRange::Float { span }, RangeSyntax::Float(s)) => span.spec_range() == s,
        _ => false,
    }
}

/// The optional expression `e` is the one that `x` describes.
pub open spec fn describes_optional(e: Option<Expr>, x: Option<ExprSyntax>, fl: spec_fn(Seq<char>) -> u64) -> bool {
    match (e, x) {
        (Some(a), Some(b)) => describes_expr(a, b, fl),
        (None, None) => true,
        _ => false,
    }
}

/// The assignment `a` is the one that `x` describes.
pub open spec fn describes_assignment(
    a: Assignment<Identifier<FullSpan>, FullSpan, Expr>,
    x: AssignmentSyntax,
    fl: spec_fn(Seq<char>) -> u64,
) -> bool {
    &&& describes_name(a.target, x.target)
    &&& a.target_span.spec_range() == x.target.1
    &&& describes_expr(a.value, x.value, fl)
    &&& a.span.spec_range() == x.span
}

/// The update `u` is the one that `x` describes.
pub open spec fn describes_update(
    u: Update<Identifier<FullSpan>, FullSpan, Expr>,
    x: UpdateSyntax,
    fl: spec_fn(Seq<char>) -> u64,
) -> bool {
    &&& describes_expr(u.probability, x.probability, fl)
    &&& u.assignments@.len() == x.assignments.len()
    &&& forall|i: int|
        0 <= i < x.assignments.len() ==> describes_assignment(
            #[trigger] u.assignments@[i],
            x.assignments[i],
            fl,
        )
    &&& u.span.spec_range() == x.span
}

/// The optional name `id` is the one that `x` describes.
pub open spec fn describes_optional_name(id: Option<Identifier<FullSpan>>, x: Option<(Seq<char>, Sp)>) -> bool {
    match (id, x) {
        (Some(a), Some(b)) => describes_name(a, b),
        (None, None) => true,
        _ => false,
    }
}

/// The command `c` is the one that `x` describes.
pub open spec fn describes_command(
    c: Command<Identifier<FullSpan>, FullSpan, Expr, Identifier<FullSpan>>,
    x: CommandSyntax,
    fl: spec_fn(Seq<char>) -> u64,
) -> bool {
    &&& describes_optional_name(c.action, x.action)
    &&& c.action_span.spec_range() == x.action_span
    &&& describes_expr(c.guard, x.guard, fl)
    &&& c.updates@.len() == x.updates.len()
    &&& forall|i: int| 0 <= i < x.updates.len() ==> describes_update(#[trigger] c.updates@[i], x.updates[i], fl)
    &&& c.span.spec_range() == x.span
}

/// The module `m` holds the commands that `x` describes, with its name and span.
pub open spec fn describes_module(
    m: Module<Identifier<FullSpan>, FullSpan, Expr, Identifier<FullSpan>>,
    x: ModuleSyntax,
    fl: spec_fn(Seq<char>) -> u64,
) -> bool {
    &&& describes_name(m.name, x.name)
    &&& m.commands@.len() == x.commands.len()
    &&& forall|i: int| 0 <= i < x.commands.len() ==> describes_command(#[trigger] m.commands@[i], x.commands[i], fl)
    &&& m.span.spec_range() == x.span
}

/// The renamed module `m` is the one that `x` describes.
pub open spec fn describes_renamed(m: RenamedModule<FullSpan>, x: RenamedModuleSyntax) -> bool {
    &&& describes_name(m.old_name, x.old_name)
    &&& describes_name(m.new_name, x.new_name)
    &&& m.rename_rules.rules@.len() == x.rules.len()
    &&& forall|i: int|
        0 <= i < x.rules.len() ==> {
            let r = #[trigger] m.rename_rules.rules@[i];
            &&& describes_name(r.old_name, x.rules[i].old_name)
            &&& describes_name(r.new_name, x.rules[i].new_name)
            &&& r.span.spec_range() == x.rules[i].span
        }
    &&& m.span.spec_range() == x.span
}

/// The label `l` is the one that `x` describes.
pub open spec fn describes_label(l: Label<FullSpan, Expr>, x: DefinitionSyntax, fl: spec_fn(Seq<char>) -> u64) -> bool {
    describes_name(l.name, x.name) && describes_expr(l.condition, x.condition, fl) && l.span.spec_range() == x.span
}

/// The formula `f` is the one that `x` describes.
pub open spec fn describes_formula(f: Formula<FullSpan, Expr>, x: DefinitionSyntax, fl: spec_fn(Seq<char>) -> u64) -> bool {
    describes_name(f.name, x.name) && describes_expr(f.condition, x.condition, fl) && f.span.spec_range() == x.span
}

/// The reward entry `r` is the one that `x` describes.
pub open spec fn describes_rewards_element(
    r: RewardsElement<FullSpan, Expr, Identifier<FullSpan>>,
    x: RewardsElementSyntax,
    fl: spec_fn(Seq<char>) -> u64,
) -> bool {
    &&& match (r.target, x.target) {
        (RewardsTarget::State, None) => true,
        (RewardsTarget::Action(a), Some(b)) => describes_optional_name(a, b),
        _ => false,
    }
    &&& describes_expr(r.condition, x.condition, fl)
    &&& describes_expr(r.value, x.value, fl)
    &&& r.span.spec_range() == x.span
}

/// The reward structure `r` is the one that `x` describes.
pub open spec fn describes_rewards(
    r: Rewards<FullSpan, Expr, Identifier<FullSpan>>,
    x: RewardsSyntax,
    fl: spec_fn(Seq<char>) -> u64,
) -> bool {
    &&& describes_optional_name(r.name, x.name)
    &&& r.entries@.len() == x.entries.len()
    &&& forall|i: int|
        0 <= i < x.entries.len() ==> describes_rewards_element(#[trigger] r.entries@[i], x.entries[i], fl)
    &&& r.span.spec_range() == x.span
}

/// Expects the token `t` at `k`; gives the index after it.
pub open spec fn expect_at(toks: TokensView, k: int, t: TokenValue, eoi: usize) -> Result<int, ParserErrorValue> {
    if token_is(toks, k, t) {
        Ok(k + 1)
    } else {
        Err(expected_at(toks, k, eoi, seq![PatternValue::Token(t)]))
    }
}

/// Reads an identifier at `k`: an identifier token or the word `T`, with a legal name.
pub open spec fn identifier_at(toks: TokensView, k: int, eoi: usize) -> Result<(Seq<char>, Sp), ParserErrorValue> {
    match key_at(toks, k) {
        None => Err(expected_at(toks, k, eoi, seq![PatternValue::Label("identifier"@)])),
        Some(name) => if name_error(name, false) is Some {
            Err(ParserErrorValue::InvalidIdentifierName { span: toks[k].1, name })
        } else {
            Ok((name, toks[k].1))
        },
    }
}

/// Whether a variable domain starts at `k`.
pub open spec fn domain_starts(toks: TokensView, k: int) -> bool {
    token_is(toks, k, TokenValue::LeftSqBracket) || token_is(toks, k, TokenValue::Int) || token_is(
        toks,
        k,
        TokenValue::Bool,
    ) || token_is(toks, k, TokenValue::Double)
}

/// Reads a variable domain at `k`: `[min..max]`, `int`, `bool` or `double`.
pub open spec fn domain_at(toks: TokensView, k: int, eoi: usize) -> Result<(RangeSyntax, int), ParserErrorValue> {
    if token_is(toks, k, TokenValue::LeftSqBracket) {
        match expression_at(toks, k + 1, 0, eoi) {
            Err(e) => Err(e),
            Ok((a, j)) => match expect_at(toks, j, TokenValue::DotDot, eoi) {
                Err(e) => Err(e),
                Ok(j2) => match expression_at(toks, j2, 0, eoi) {
                    Err(e) => Err(e),
                    Ok((b, m)) => match expect_at(toks, m, TokenValue::RightSqBracket, eoi) {
                        Err(e) => Err(e),
                        Ok(end) => Ok((RangeSyntax::BoundedInt(a, b, tokens_span(toks, k, end, eoi)), end)),
                    },
                },
            },
        }
    } else if token_is(toks, k, TokenValue::Int) {
        Ok((RangeSyntax::UnboundedInt(toks[k].1), k + 1))
    } else if token_is(toks, k, TokenValue::Bool) {
        Ok((RangeSyntax::Boolean(toks[k].1), k + 1))
    } else if token_is(toks, k, TokenValue::Double) {
        Ok((RangeSyntax::Float(toks[k].1), k + 1))
    } else {
        Err(
            expected_at(
                toks,
                k,
                eoi,
                seq![PatternValue::Label("variable domain ([n..m], int, bool or double)"@)],
            ),
        )
    }
}

/// Reads `keyword expr` at `k` if the keyword stands there: the optional initial value of a
/// declaration. Gives the value (if any) and the index after it.
pub open spec fn optional_value_at(toks: TokensView, k: int, keyword: TokenValue, eoi: usize) -> Result<
    (Option<ExprSyntax>, int),
    ParserErrorValue,
> {
    if token_is(toks, k, keyword) {
        match expression_at(toks, k + 1, 0, eoi) {
            Err(e) => Err(e),
            Ok((v, j)) => Ok((Some(v), j)),
        }
    } else {
        Ok((None, k))
    }
}

/// Reads a variable declaration `name : domain (init value)? ;` that starts at `k` (after the
/// keyword `global` for a global variable).
pub open spec fn variable_at(toks: TokensView, start: int, k: int, eoi: usize) -> Result<
    (VariableSyntax, int),
    ParserErrorValue,
> {
    match identifier_at(toks, k, eoi) {
        Err(e) => Err(e),
        Ok(name) => match expect_at(toks, k + 1, TokenValue::Colon, eoi) {
            Err(e) => Err(e),
            Ok(j) => match domain_at(toks, j, eoi) {
                Err(e) => Err(e),
                Ok((range, m)) => match optional_value_at(toks, m, TokenValue::Init, eoi) {
                    Err(e) => Err(e),
                    Ok((initial, n)) => match expect_at(toks, n, TokenValue::Semicolon, eoi) {
                        Err(e) => Err(e),
                        Ok(end) => Ok(
                            (
                                VariableSyntax { name, range, initial, span: tokens_span(toks, start, end, eoi) },
                                end,
                            ),
                        ),
                    },
                },
            },
        },
    }
}

/// Reads a constant declaration `const domain? name (= value)? ;` at `k`, where `const` stands.
/// Without a domain the constant is an unbounded integer whose domain has the empty span before
/// the name.
pub open spec fn constant_at(toks: TokensView, k: int, eoi: usize) -> Result<(VariableSyntax, int), ParserErrorValue> {
    let domain = if domain_starts(toks, k + 1) {
        domain_at(toks, k + 1, eoi)
    } else {
        Ok(
            (
                RangeSyntax::UnboundedInt(Some((start_at(toks, k + 1, eoi), start_at(toks, k + 1, eoi)))),
                k + 1,
            ),
        )
    };
    match domain {
        Err(e) => Err(e),
        Ok((range, j)) => match identifier_at(toks, j, eoi) {
            Err(e) => Err(e),
            Ok(name) => match optional_value_at(toks, j + 1, TokenValue::Equal, eoi) {
                Err(e) => Err(e),
                Ok((initial, n)) => match expect_at(toks, n, TokenValue::Semicolon, eoi) {
                    Err(e) => Err(e),
                    Ok(end) => Ok(
                        (VariableSyntax { name, range, initial, span: tokens_span(toks, k, end, eoi) }, end),
                    ),
                },
            },
        },
    }
}

/// Reads a label definition `label "name" = expr ;` at `k`, where `label` stands.
pub open spec fn label_at(toks: TokensView, k: int, eoi: usize) -> Result<(DefinitionSyntax, int), ParserErrorValue> {
    match expect_at(toks, k + 1, TokenValue::Quote, eoi) {
        Err(e) => Err(e),
        Ok(j) => match identifier_at(toks, j, eoi) {
            Err(e) => Err(e),
            Ok(name) => match expect_at(toks, j + 1, TokenValue::Quote, eoi) {
                Err(e) => Err(e),
                Ok(j2) => match expect_at(toks, j2, TokenValue::Equal, eoi) {
                    Err(e) => Err(e),
                    Ok(j3) => match expression_at(toks, j3, 0, eoi) {
                        Err(e) => Err(e),
                        Ok((c, m)) => match expect_at(toks, m, TokenValue::Semicolon, eoi) {
                            Err(e) => Err(e),
                            Ok(end) => Ok(
                                (DefinitionSyntax { name, condition: c, span: tokens_span(toks, k, end, eoi) }, end),
                            ),
                        },
                    },
                },
            },
        },
    }
}

/// Reads a formula definition `formula name = expr ;` at `k`, where `formula` stands.
pub open spec fn formula_at(toks: TokensView, k: int, eoi: usize) -> Result<(DefinitionSyntax, int), ParserErrorValue> {
    match identifier_at(toks, k + 1, eoi) {
        Err(e) => Err(e),
        Ok(name) => match expect_at(toks, k + 2, TokenValue::Equal, eoi) {
            Err(e) => Err(e),
            Ok(j) => match expression_at(toks, j, 0, eoi) {
                Err(e) => Err(e),
                Ok((c, m)) => match expect_at(toks, m, TokenValue::Semicolon, eoi) {
                    Err(e) => Err(e),
                    Ok(end) => Ok(
                        (DefinitionSyntax { name, condition: c, span: tokens_span(toks, k, end, eoi) }, end),
                    ),
                },
            },
        },
    }
}

/// Reads an initial-state constraint `init expr endinit` at `k`, where `init` stands. Gives the
/// expression, the span of the whole constraint and the index after it.
pub open spec fn init_at(toks: TokensView, k: int, eoi: usize) -> Result<(ExprSyntax, Sp, int), ParserErrorValue> {
    match expression_at(toks, k + 1, 0, eoi) {
        Err(e) => Err(e),
        Ok((c, m)) => match expect_at(toks, m, TokenValue::EndInit, eoi) {
            Err(e) => Err(e),
            Ok(end) => Ok((c, tokens_span(toks, k, end, eoi), end)),
        },
    }
}

/// Reads an assignment `( name '= expr )` at `k`.
pub open spec fn assignment_at(toks: TokensView, k: int, eoi: usize) -> Result<(AssignmentSyntax, int), ParserErrorValue> {
    match expect_at(toks, k, TokenValue::LeftBracket, eoi) {
        Err(e) => Err(e),
        Ok(j) => match identifier_at(toks, j, eoi) {
            Err(e) => Err(e),
            Ok(target) => match expect_at(toks, j + 1, TokenValue::AssignedTo, eoi) {
                Err(e) => Err(e),
                Ok(j2) => match expression_at(toks, j2, 0, eoi) {
                    Err(e) => Err(e),
                    Ok((v, m)) => match expect_at(toks, m, TokenValue::RightBracket, eoi) {
                        Err(e) => Err(e),
                        Ok(end) => Ok((AssignmentSyntax { target, value: v, span: tokens_span(toks, k, end, eoi) }, end)),
                    },
                },
            },
        },
    }
}

/// Reads assignments `a1 & a2 & ...` (at least one) from `k` on.
pub open spec fn assignments_from(toks: TokensView, k: int, eoi: usize) -> Result<
    (Seq<AssignmentSyntax>, int),
    ParserErrorValue,
>
    decreases toks.len() - k,
{
    match assignment_at(toks, k, eoi) {
        Err(e) => Err(e),
        Ok((a, j)) => if k < j && token_is(toks, j, TokenValue::And) {
            match assignments_from(toks, j + 1, eoi) {
                Err(e) => Err(e),
                Ok((rest, m)) => Ok((seq![a] + rest, m)),
            }
        } else {
            Ok((seq![a], j))
        },
    }
}

/// Reads an update at `k`: an optional probability followed by `:`, then `true` or assignments.
/// Without a probability it is the literal `1` with the empty span at the start of the update.
pub open spec fn update_at(toks: TokensView, k: int, eoi: usize) -> Result<(UpdateSyntax, int), ParserErrorValue> {
    let (probability, j) = match expression_at(toks, k, 0, eoi) {
        Ok((p, m)) => if token_is(toks, m, TokenValue::Colon) {
            (p, m + 1)
        } else {
            (ExprSyntax::Int(1, Some((start_at(toks, k, eoi), start_at(toks, k, eoi)))), k)
        },
        Err(_) => (ExprSyntax::Int(1, Some((start_at(toks, k, eoi), start_at(toks, k, eoi)))), k),
    };
    if token_is(toks, j, TokenValue::True) {
        Ok((UpdateSyntax { probability, assignments: seq![], span: tokens_span(toks, k, j + 1, eoi) }, j + 1))
    } else {
        match assignments_from(toks, j, eoi) {
            Err(e) => Err(e),
            Ok((assignments, m)) => Ok((UpdateSyntax { probability, assignments, span: tokens_span(toks, k, m, eoi) }, m)),
        }
    }
}

/// Reads updates `u1 + u2 + ...` (at least one) from `k` on.
pub open spec fn updates_from(toks: TokensView, k: int, eoi: usize) -> Result<(Seq<UpdateSyntax>, int), ParserErrorValue>
    decreases toks.len() - k,
{
    match update_at(toks, k, eoi) {
        Err(e) => Err(e),
        Ok((u, j)) => if k < j && token_is(toks, j, TokenValue::Plus) {
            match updates_from(toks, j + 1, eoi) {
                Err(e) => Err(e),
                Ok((rest, m)) => Ok((seq![u] + rest, m)),
            }
        } else {
            Ok((seq![u], j))
        },
    }
}

/// Reads a command `[action?] guard -> updates ;` at `k`, where `[` stands; the updates are
/// `true` (none) or updates separated by `+`.
pub open spec fn command_at(toks: TokensView, k: int, eoi: usize) -> Result<(CommandSyntax, int), ParserErrorValue> {
    let action = if token_is(toks, k + 1, TokenValue::RightSqBracket) {
        Ok((None::<(Seq<char>, Sp)>, k + 2))
    } else {
        match identifier_at(toks, k + 1, eoi) {
            Err(e) => Err(e),
            Ok(a) => match expect_at(toks, k + 2, TokenValue::RightSqBracket, eoi) {
                Err(e) => Err(e),
                Ok(j) => Ok((Some(a), j)),
            },
        }
    };
    match action {
        Err(e) => Err(e),
        Ok((action, j)) => match expression_at(toks, j, 0, eoi) {
            Err(e) => Err(e),
            Ok((guard, m)) => match expect_at(toks, m, TokenValue::Arrow, eoi) {
                Err(e) => Err(e),
                Ok(m2) => {
                    let updates = if token_is(toks, m2, TokenValue::True) && token_is(
                        toks,
                        m2 + 1,
                        TokenValue::Semicolon,
                    ) {
                        Ok((seq![], m2 + 1))
                    } else {
                        updates_from(toks, m2, eoi)
                    };
                    match updates {
                        Err(e) => Err(e),
                        Ok((updates, n)) => match expect_at(toks, n, TokenValue::Semicolon, eoi) {
                            Err(e) => Err(e),
                            Ok(end) => Ok(
                                (
                                    CommandSyntax {
                                        action,
                                        action_span: tokens_span(toks, k, j, eoi),
                                        guard,
                                        updates,
                                        span: tokens_span(toks, k, end, eoi),
                                    },
                                    end,
                                ),
                            ),
                        },
                    }
                },
            },
        },
    }
}

/// The declaration `v` is the one that `x` describes, as a constant (`is_constant`) or variable
/// of the given scope.
pub open spec fn describes_variable(
    v: VariableInfo<FullSpan, Expr>,
    x: VariableSyntax,
    is_constant: bool,
    scope: Option<usize>,
    fl: spec_fn(Seq<char>) -> u64,
) -> bool {
    &&& describes_name(v.name, x.name)
    &&& describes_range(v.range, x.range, fl)
    &&& describes_optional(v.initial_value, x.initial, fl)
    &&& v.span.spec_range() == x.span
    &&& v.is_constant == is_constant
    &&& v.scope == scope
}

/// The tokens are ready to be read: spans tracked, integer literals that fit, and a formatter
/// for floating-point literals.
pub open spec fn ready<P: Fn(&str) -> u64>(tokens: Seq<(Token, FullSpan)>, floats: P) -> bool {
    &&& tokens.len() <= usize::MAX
    &&& spans_tracked(lexed_view(tokens))
    &&& integers_fit(lexed_view(tokens))
    &&& parses_floats(floats)
}

/// Expects the token `t` at `k`; see [`expect_at`].
pub(crate) fn expect_exec(tokens: &Vec<(Token, FullSpan)>, k: usize, t: &Token, eoi: usize) -> (r: Result<usize, ParserError>)
    requires
        crate::token::is_plain(t@),
        tokens@.len() <= usize::MAX,
    ensures
        match (r, expect_at(lexed_view(tokens@), k as int, t@, eoi)) {
            (Ok(j), Ok(m)) => j == m && j == k + 1 && k < tokens@.len(),
            (Err(e), Err(v)) => describes_error(e, v),
            _ => false,
        },
{
    if token_at_is(tokens, k, t) {
        Ok(k + 1)
    } else {
        let expected = vec![Pattern::Token(t.duplicate())];
        assert(patterns_view(expected@) =~= seq![PatternValue::Token(t@)]);
        Err(expected_error(tokens, k, eoi, expected))
    }
}

/// Reads an identifier at `k`; see [`identifier_at`].
pub fn identifier_parser(tokens: &Vec<(Token, FullSpan)>, k: usize, eoi: usize) -> (r: Result<
    Identifier<FullSpan>,
    ParserError,
>)
    requires
        spans_tracked(lexed_view(tokens@)),
    ensures
        match (r, identifier_at(lexed_view(tokens@), k as int, eoi)) {
            (Ok(id), Ok(n)) => describes_name(id, n) && k < tokens@.len(),
            (Err(e), Err(v)) => describes_error(e, v),
            _ => false,
        },
{
    match key_name_exec(tokens, k) {
        None => {
            let expected = vec![Pattern::Label(String::from_str("identifier"))];
            assert(patterns_view(expected@) =~= seq![PatternValue::Label("identifier"@)]);
            Err(expected_error(tokens, k, eoi, expected))
        },
        Some(name) => {
            let span = tokens[k].1;
            match Identifier::new_spanned(name.as_str(), span) {
                Err(reason) => Err(
                    ParserError::Validation(ValidationError::InvalidIdentifierName { span, reason }),
                ),
                Ok(id) => Ok(id),
            }
        },
    }
}

/// Reads a variable domain at `k`; see [`domain_at`].
pub fn variable_domain_parser<P: Fn(&str) -> u64>(tokens: &Vec<(Token, FullSpan)>, k: usize, eoi: usize, floats: &P) -> (r: Result<
    (VariableRange<FullSpan, Expr>, usize),
    ParserError,
>)
    requires
        k <= tokens@.len(),
        ready(tokens@, *floats),
    ensures
        match (r, domain_at(lexed_view(tokens@), k as int, eoi)) {
            (Ok((v, j)), Ok((x, m))) => describes_range(v, x, float_values(*floats)) && j == m && k < j
                <= tokens@.len(),
            (Err(e), Err(v)) => describes_error(e, v),
            _ => false,
        },
{
    if token_at_is(tokens, k, &Token::LeftSqBracket) {
        let (a, j) = match expression_exec(tokens, k + 1, 0, eoi, floats) {
            Err(e) => {
                return Err(e);
            },
            Ok(p) => p,
        };
        let j2 = match expect_exec(tokens, j, &Token::DotDot, eoi) {
            Err(e) => {
                return Err(e);
            },
            Ok(p) => p,
        };
        let (b, m) = match expression_exec(tokens, j2, 0, eoi, floats) {
            Err(e) => {
                return Err(e);
            },
            Ok(p) => p,
        };
        let end = match expect_exec(tokens, m, &Token::RightSqBracket, eoi) {
            Err(e) => {
                return Err(e);
            },
            Ok(p) => p,
        };
        let span = span_between(tokens, k, end, eoi);
        Ok((VariableRange::BoundedInt { min: a, max: b, span }, end))
    } else if token_at_is(tokens, k, &Token::Int) {
        Ok((VariableRange::UnboundedInt { span: tokens[k].1 }, k + 1))
    } else if token_at_is(tokens, k, &Token::Bool) {
        Ok((VariableRange::Boolean { span: tokens[k].1 }, k + 1))
    } else if token_at_is(tokens, k, &Token::Double) {
        Ok((VariableRange::Float { span: tokens[k].1 }, k + 1))
    } else {
        let expected = vec![
            Pattern::Label(String::from_str("variable domain ([n..m], int, bool or double)")),
        ];
        assert(patterns_view(expected@) =~= seq![
            PatternValue::Label("variable domain ([n..m], int, bool or double)"@),
        ]);
        Err(expected_error(tokens, k, eoi, expected))
    }
}

/// Reads an optional `keyword value` at `k`; see [`optional_value_at`].
fn optional_value_exec<P: Fn(&str) -> u64>(
    tokens: &Vec<(Token, FullSpan)>,
    k: usize,
    keyword: &Token,
    eoi: usize,
    floats: &P,
) -> (r: Result<(Option<Expr>, usize), ParserError>)
    requires
        k <= tokens@.len(),
        ready(tokens@, *floats),
        crate::token::is_plain(keyword@),
    ensures
        match (r, optional_value_at(lexed_view(tokens@), k as int, keyword@, eoi)) {
            (Ok((v, j)), Ok((x, m))) => describes_optional(v, x, float_values(*floats)) && j == m && k
                <= j <= tokens@.len(),
            (Err(e), Err(v)) => describes_error(e, v),
            _ => false,
        },
{
    if token_at_is(tokens, k, keyword) {
        match expression_exec(tokens, k + 1, 0, eoi, floats) {
            Err(e) => Err(e),
            Ok((v, j)) => Ok((Some(v), j)),
        }
    } else {
        Ok((None, k))
    }
}

/// Reads a variable declaration that starts at `start` and whose name stands at `k`; see
/// [`variable_at`].
fn variable_exec<P: Fn(&str) -> u64>(
    tokens: &Vec<(Token, FullSpan)>,
    start: usize,
    k: usize,
    scope: Option<usize>,
    eoi: usize,
    floats: &P,
) -> (r: Result<(VariableInfo<FullSpan, Expr>, usize), ParserError>)
    requires
        start <= k <= tokens@.len(),
        ready(tokens@, *floats),
    ensures
        match (r, variable_at(lexed_view(tokens@), start as int, k as int, eoi)) {
            (Ok((v, j)), Ok((x, m))) => describes_variable(v, x, false, scope, float_values(*floats))
                && j == m && k < j <= tokens@.len(),
            (Err(e), Err(v)) => describes_error(e, v),
            _ => false,
        },
{
    let name = match identifier_parser(tokens, k, eoi) {
        Err(e) => {
            return Err(e);
        },
        Ok(p) => p,
    };
    let j = match expect_exec(tokens, k + 1, &Token::Colon, eoi) {
        Err(e) => {
            return Err(e);
        },
        Ok(p) => p,
    };
    let (range, m) = match variable_domain_parser(tokens, j, eoi, floats) {
        Err(e) => {
            return Err(e);
        },
        Ok(p) => p,
    };
    let (initial, n) = match optional_value_exec(tokens, m, &Token::Init, eoi, floats) {
        Err(e) => {
            return Err(e);
        },
        Ok(p) => p,
    };
    let end = match expect_exec(tokens, n, &Token::Semicolon, eoi) {
        Err(e) => {
            return Err(e);
        },
        Ok(p) => p,
    };
    let span = span_between(tokens, start, end, eoi);
    Ok((VariableInfo::with_optional_initial_value(name, range, false, scope, initial, span), end))
}

/// Reads a local variable declaration `name : domain (init value)? ;` at `k`; see
/// [`variable_at`]. The declaration has no scope yet: the module that holds it gives it one.
pub fn variable_declaration_parser<P: Fn(&str) -> u64>(
    tokens: &Vec<(Token, FullSpan)>,
    k: usize,
    eoi: usize,
    floats: &P,
) -> (r: Result<(VariableInfo<FullSpan, Expr>, usize), ParserError>)
    requires
        k <= tokens@.len(),
        ready(tokens@, *floats),
    ensures
        match (r, variable_at(lexed_view(tokens@), k as int, k as int, eoi)) {
            (Ok((v, j)), Ok((x, m))) => describes_variable(v, x, false, None, float_values(*floats)) && j
                == m && k < j <= tokens@.len(),
            (Err(e), Err(v)) => describes_error(e, v),
            _ => false,
        },
{
    variable_exec(tokens, k, k, None, eoi, floats)
}

/// Reads a global variable declaration `global name : domain (init value)? ;` at `k`, where
/// `global` stands; see [`variable_at`].
pub fn global_variable_declaration_parser<P: Fn(&str) -> u64>(
    tokens: &Vec<(Token, FullSpan)>,
    k: usize,
    eoi: usize,
    floats: &P,
) -> (r: Result<(VariableInfo<FullSpan, Expr>, usize), ParserError>)
    requires
        k < tokens@.len(),
        ready(tokens@, *floats),
    ensures
        match (r, variable_at(lexed_view(tokens@), k as int, k + 1, eoi)) {
            (Ok((v, j)), Ok((x, m))) => describes_variable(v, x, false, None, float_values(*floats)) && j
                == m && k < j <= tokens@.len(),
            (Err(e), Err(v)) => describes_error(e, v),
            _ => false,
        },
{
    variable_exec(tokens, k, k + 1, None, eoi, floats)
}

/// Reads a constant declaration at `k`, where `const` stands; see [`constant_at`].
pub fn const_parser<P: Fn(&str) -> u64>(tokens: &Vec<(Token, FullSpan)>, k: usize, eoi: usize, floats: &P) -> (r: Result<
    (VariableInfo<FullSpan, Expr>, usize),
    ParserError,
>)
    requires
        k < tokens@.len(),
        ready(tokens@, *floats),
    ensures
        match (r, constant_at(lexed_view(tokens@), k as int, eoi)) {
            (Ok((v, j)), Ok((x, m))) => describes_variable(v, x, true, None, float_values(*floats)) && j
                == m && k < j <= tokens@.len(),
            (Err(e), Err(v)) => describes_error(e, v),
            _ => false,
        },
{
    let ghost toks = lexed_view(tokens@);
    let starts = token_at_is(tokens, k + 1, &Token::LeftSqBracket) || token_at_is(tokens, k + 1, &Token::Int)
        || token_at_is(tokens, k + 1, &Token::Bool) || token_at_is(tokens, k + 1, &Token::Double);
    let (range, j) = if starts {
        match variable_domain_parser(tokens, k + 1, eoi, floats) {
            Err(e) => {
                return Err(e);
            },
            Ok(p) => p,
        }
    } else {
        let at = if k + 1 < tokens.len() {
            assert(toks[k + 1].1 is Some);
            tokens[k + 1].1.start().unwrap()
        } else {
            eoi
        };
        (VariableRange::UnboundedInt { span: FullSpan::from_range(at..at) }, k + 1)
    };
    let name = match identifier_parser(tokens, j, eoi) {
        Err(e) => {
            return Err(e);
        },
        Ok(p) => p,
    };
    let (initial, n) = match optional_value_exec(tokens, j + 1, &Token::Equal, eoi, floats) {
        Err(e) => {
            return Err(e);
        },
        Ok(p) => p,
    };
    let end = match expect_exec(tokens, n, &Token::Semicolon, eoi) {
        Err(e) => {
            return Err(e);
        },
        Ok(p) => p,
    };
    let span = span_between(tokens, k, end, eoi);
    Ok((VariableInfo::with_optional_initial_value(name, range, true, None, initial, span), end))
}

/// Reads a label definition at `k`, where `label` stands; see [`label_at`].
pub fn label_parser<P: Fn(&str) -> u64>(tokens: &Vec<(Token, FullSpan)>, k: usize, eoi: usize, floats: &P) -> (r: Result<
    (Label<FullSpan, Expr>, usize),
    ParserError,
>)
    requires
        k < tokens@.len(),
        ready(tokens@, *floats),
    ensures
        match (r, label_at(lexed_view(tokens@), k as int, eoi)) {
            (Ok((v, j)), Ok((x, m))) => describes_label(v, x, float_values(*floats)) && j == m && k < j
                <= tokens@.len(),
            (Err(e), Err(v)) => describes_error(e, v),
            _ => false,
        },
{
    let j = match expect_exec(tokens, k + 1, &Token::Quote, eoi) {
        Err(e) => {
            return Err(e);
        },
        Ok(p) => p,
    };
    let name = match identifier_parser(tokens, j, eoi) {
        Err(e) => {
            return Err(e);
        },
        Ok(p) => p,
    };
    let j2 = match expect_exec(tokens, j + 1, &Token::Quote, eoi) {
        Err(e) => {
            return Err(e);
        },
        Ok(p) => p,
    };
    let j3 = match expect_exec(tokens, j2, &Token::Equal, eoi) {
        Err(e) => {
            return Err(e);
        },
        Ok(p) => p,
    };
    let (c, m) = match expression_exec(tokens, j3, 0, eoi, floats) {
        Err(e) => {
            return Err(e);
        },
        Ok(p) => p,
    };
    let end = match expect_exec(tokens, m, &Token::Semicolon, eoi) {
        Err(e) => {
            return Err(e);
        },
        Ok(p) => p,
    };
    let span = span_between(tokens, k, end, eoi);
    Ok((Label::new_spanned(name, c, span), end))
}

/// Reads a formula definition at `k`, where `formula` stands; see [`formula_at`].
pub fn formula_parser<P: Fn(&str) -> u64>(tokens: &Vec<(Token, FullSpan)>, k: usize, eoi: usize, floats: &P) -> (r: Result<
    (Formula<FullSpan, Expr>, usize),
    ParserError,
>)
    requires
        k < tokens@.len(),
        ready(tokens@, *floats),
    ensures
        match (r, formula_at(lexed_view(tokens@), k as int, eoi)) {
            (Ok((v, j)), Ok((x, m))) => describes_formula(v, x, float_values(*floats)) && j == m && k < j
                <= tokens@.len(),
            (Err(e), Err(v)) => describes_error(e, v),
            _ => false,
        },
{
    let name = match identifier_parser(tokens, k + 1, eoi) {
        Err(e) => {
            return Err(e);
        },
        Ok(p) => p,
    };
    let j = match expect_exec(tokens, k + 2, &Token::Equal, eoi) {
        Err(e) => {
            return Err(e);
        },
        Ok(p) => p,
    };
    let (c, m) = match expression_exec(tokens, j, 0, eoi, floats) {
        Err(e) => {
            return Err(e);
        },
        Ok(p) => p,
    };
    let end = match expect_exec(tokens, m, &Token::Semicolon, eoi) {
        Err(e) => {
            return Err(e);
        },
        Ok(p) => p,
    };
    let span = span_between(tokens, k, end, eoi);
    Ok((Formula::new_spanned(name, c, span), end))
}

/// Reads an initial-state constraint at `k`, where `init` stands; see [`init_at`].
pub fn init_constraint_parser<P: Fn(&str) -> u64>(tokens: &Vec<(Token, FullSpan)>, k: usize, eoi: usize, floats: &P) -> (r: Result<
    (Expr, FullSpan, usize),
    ParserError,
>)
    requires
        k < tokens@.len(),
        ready(tokens@, *floats),
    ensures
        match (r, init_at(lexed_view(tokens@), k as int, eoi)) {
            (Ok((v, s, j)), Ok((x, t, m))) => describes_expr(v, x, float_values(*floats)) && s.spec_range()
                == t && j == m && k < j <= tokens@.len(),
            (Err(e), Err(v)) => describes_error(e, v),
            _ => false,
        },
{
    let (c, m) = match expression_exec(tokens, k + 1, 0, eoi, floats) {
        Err(e) => {
            return Err(e);
        },
        Ok(p) => p,
    };
    let end = match expect_exec(tokens, m, &Token::EndInit, eoi) {
        Err(e) => {
            return Err(e);
        },
        Ok(p) => p,
    };
    let span = span_between(tokens, k, end, eoi);
    Ok((c, span, end))
}

/// The start of the token at `k`, or `eoi` past the last token.
fn start_exec(tokens: &Vec<(Token, FullSpan)>, k: usize, eoi: usize) -> (r: usize)
    requires
        spans_tracked(lexed_view(tokens@)),
    ensures
        r == start_at(lexed_view(tokens@), k as int, eoi),
{
    if k < tokens.len() {
        assert(lexed_view(tokens@)[k as int].1 is Some);
        tokens[k].1.start().unwrap()
    } else {
        eoi
    }
}

/// Reads an assignment at `k`; see [`assignment_at`].
fn assignment_parser<P: Fn(&str) -> u64>(tokens: &Vec<(Token, FullSpan)>, k: usize, eoi: usize, floats: &P) -> (r: Result<
    (Assignment<Identifier<FullSpan>, FullSpan, Expr>, usize),
    ParserError,
>)
    requires
        k <= tokens@.len(),
        ready(tokens@, *floats),
    ensures
        match (r, assignment_at(lexed_view(tokens@), k as int, eoi)) {
            (Ok((v, j)), Ok((x, m))) => describes_assignment(v, x, float_values(*floats)) && j == m && k
                < j <= tokens@.len(),
            (Err(e), Err(v)) => describes_error(e, v),
            _ => false,
        },
{
    let j = match expect_exec(tokens, k, &Token::LeftBracket, eoi) {
        Err(e) => {
            return Err(e);
        },
        Ok(p) => p,
    };
    let target = match identifier_parser(tokens, j, eoi) {
        Err(e) => {
            return Err(e);
        },
        Ok(p) => p,
    };
    let j2 = match expect_exec(tokens, j + 1, &Token::AssignedTo, eoi) {
        Err(e) => {
            return Err(e);
        },
        Ok(p) => p,
    };
    let (v, m) = match expression_exec(tokens, j2, 0, eoi, floats) {
        Err(e) => {
            return Err(e);
        },
        Ok(p) => p,
    };
    let end = match expect_exec(tokens, m, &Token::RightBracket, eoi) {
        Err(e) => {
            return Err(e);
        },
        Ok(p) => p,
    };
    let span = span_between(tokens, k, end, eoi);
    let target_span = target.span;
    Ok((Assignment { target, value: v, target_span, span }, end))
}

/// Reads assignments from `k` on; see [`assignments_from`].
fn assignments_exec<P: Fn(&str) -> u64>(tokens: &Vec<(Token, FullSpan)>, k: usize, eoi: usize, floats: &P) -> (r: Result<
    (Vec<Assignment<Identifier<FullSpan>, FullSpan, Expr>>, usize),
    ParserError,
>)
    requires
        k <= tokens@.len(),
        ready(tokens@, *floats),
    ensures
        match (r, assignments_from(lexed_view(tokens@), k as int, eoi)) {
            (Ok((v, j)), Ok((x, m))) => v@.len() == x.len() && (forall|i: int|
                0 <= i < x.len() ==> describes_assignment(#[trigger] v@[i], x[i], float_values(*floats)))
                && j == m && k < j <= tokens@.len(),
            (Err(e), Err(v)) => describes_error(e, v),
            _ => false,
        },
{
    let ghost toks = lexed_view(tokens@);
    let ghost fl = float_values(*floats);
    let mut out: Vec<Assignment<Identifier<FullSpan>, FullSpan, Expr>> = Vec::new();
    let ghost mut done: Seq<AssignmentSyntax> = seq![];
    let mut i = k;
    loop
        invariant
            toks == lexed_view(tokens@),
            fl == float_values(*floats),
            k <= i <= tokens@.len(),
            ready(tokens@, *floats),
            out@.len() == done.len(),
            forall|p: int| 0 <= p < done.len() ==> describes_assignment(#[trigger] out@[p], done[p], fl),
            match assignments_from(toks, i as int, eoi) {
                Ok((rest, m)) => assignments_from(toks, k as int, eoi) == Ok::<
                    (Seq<AssignmentSyntax>, int),
                    ParserErrorValue,
                >((done + rest, m)),
                Err(e) => assignments_from(toks, k as int, eoi) == Err::<
                    (Seq<AssignmentSyntax>, int),
                    ParserErrorValue,
                >(e),
            },
        decreases tokens@.len() - i,
    {
        let (a, j) = match assignment_parser(tokens, i, eoi, floats) {
            Err(e) => {
                return Err(e);
            },
            Ok(p) => p,
        };
        let ghost x = assignment_at(toks, i as int, eoi)->Ok_0.0;
        proof {
            if token_is(toks, j as int, TokenValue::And) {
                match assignments_from(toks, j + 1, eoi) {
                    Ok((rest, m)) => {
                        assert(done + (seq![x] + rest) =~= done.push(x) + rest);
                    },
                    Err(_) => {},
                }
            } else {
                assert(done + seq![x] =~= done.push(x));
            }
            done = done.push(x);
        }
        out.push(a);
        if token_at_is(tokens, j, &Token::And) {
            i = j + 1;
        } else {
            return Ok((out, j));
        }
    }
}

/// Reads an update at `k`; see [`update_at`].
fn update_parser<P: Fn(&str) -> u64>(tokens: &Vec<(Token, FullSpan)>, k: usize, eoi: usize, floats: &P) -> (r: Result<
    (Update<Identifier<FullSpan>, FullSpan, Expr>, usize),
    ParserError,
>)
    requires
        k <= tokens@.len(),
        ready(tokens@, *floats),
    ensures
        match (r, update_at(lexed_view(tokens@), k as int, eoi)) {
            (Ok((v, j)), Ok((x, m))) => describes_update(v, x, float_values(*floats)) && j == m && k < j
                <= tokens@.len(),
            (Err(e), Err(v)) => describes_error(e, v),
            _ => false,
        },
{
    let ghost toks = lexed_view(tokens@);
    let ghost fl = float_values(*floats);
    let at = start_exec(tokens, k, eoi);
    let (probability, j) = match expression_exec(tokens, k, 0, eoi, floats) {
        Ok((p, m)) => if token_at_is(tokens, m, &Token::Colon) {
            (p, m + 1)
        } else {
            let one: Expr = Expression::Int(1, FullSpan::from_range(at..at));
            assert(crate::expressions::children(one) =~= seq![]);
            (one, k)
        },
        Err(_) => {
            let one: Expr = Expression::Int(1, FullSpan::from_range(at..at));
            assert(crate::expressions::children(one) =~= seq![]);
            (one, k)
        },
    };
    let ghost px = update_at(toks, k as int, eoi);
    if token_at_is(tokens, j, &Token::True) {
        let span = span_between(tokens, k, j + 1, eoi);
        let u = Update { probability, assignments: Vec::new(), span };
        return Ok((u, j + 1));
    }
    let (assignments, m) = match assignments_exec(tokens, j, eoi, floats) {
        Err(e) => {
            return Err(e);
        },
        Ok(p) => p,
    };
    let span = span_between(tokens, k, m, eoi);
    Ok((Update { probability, assignments, span }, m))
}

/// Reads updates from `k` on; see [`updates_from`].
fn updates_exec<P: Fn(&str) -> u64>(tokens: &Vec<(Token, FullSpan)>, k: usize, eoi: usize, floats: &P) -> (r: Result<
    (Vec<Update<Identifier<FullSpan>, FullSpan, Expr>>, usize),
    ParserError,
>)
    requires
        k <= tokens@.len(),
        ready(tokens@, *floats),
    ensures
        match (r, updates_from(lexed_view(tokens@), k as int, eoi)) {
            (Ok((v, j)), Ok((x, m))) => v@.len() == x.len() && (forall|i: int|
                0 <= i < x.len() ==> describes_update(#[trigger] v@[i], x[i], float_values(*floats))) && j
                == m && k < j <= tokens@.len(),
            (Err(e), Err(v)) => describes_error(e, v),
            _ => false,
        },
{
    let ghost toks = lexed_view(tokens@);
    let ghost fl = float_values(*floats);
    let mut out: Vec<Update<Identifier<FullSpan>, FullSpan, Expr>> = Vec::new();
    let ghost mut done: Seq<UpdateSyntax> = seq![];
    let mut i = k;
    loop
        invariant
            toks == lexed_view(tokens@),
            fl == float_values(*floats),
            k <= i <= tokens@.len(),
            ready(tokens@, *floats),
            out@.len() == done.len(),
            forall|p: int| 0 <= p < done.len() ==> describes_update(#[trigger] out@[p], done[p], fl),
            match updates_from(toks, i as int, eoi) {
                Ok((rest, m)) => updates_from(toks, k as int, eoi) == Ok::<(Seq<UpdateSyntax>, int), ParserErrorValue>(
                    (done + rest, m),
                ),
                Err(e) => updates_from(toks, k as int, eoi) == Err::<(Seq<UpdateSyntax>, int), ParserErrorValue>(
                    e,
                ),
            },
        decreases tokens@.len() - i,
    {
        let (u, j) = match update_parser(tokens, i, eoi, floats) {
            Err(e) => {
                return Err(e);
            },
            Ok(p) => p,
        };
        let ghost x = update_at(toks, i as int, eoi)->Ok_0.0;
        proof {
            if token_is(toks, j as int, TokenValue::Plus) {
                match updates_from(toks, j + 1, eoi) {
                    Ok((rest, m)) => {
                        assert(done + (seq![x] + rest) =~= done.push(x) + rest);
                    },
                    Err(_) => {},
                }
            } else {
                assert(done + seq![x] =~= done.push(x));
            }
            done = done.push(x);
        }
        out.push(u);
        if token_at_is(tokens, j, &Token::Plus) {
            i = j + 1;
        } else {
            return Ok((out, j));
        }
    }
}

/// Reads a command at `k`, where `[` stands; see [`command_at`].
pub fn command_parser<P: Fn(&str) -> u64>(tokens: &Vec<(Token, FullSpan)>, k: usize, eoi: usize, floats: &P) -> (r: Result<
    (Command<Identifier<FullSpan>, FullSpan, Expr, Identifier<FullSpan>>, usize),
    ParserError,
>)
    requires
        k < tokens@.len(),
        ready(tokens@, *floats),
    ensures
        match (r, command_at(lexed_view(tokens@), k as int, eoi)) {
            (Ok((v, j)), Ok((x, m))) => describes_command(v, x, float_values(*floats)) && j == m && k < j
                <= tokens@.len(),
            (Err(e), Err(v)) => describes_error(e, v),
            _ => false,
        },
{
    let (action, j) = if token_at_is(tokens, k + 1, &Token::RightSqBracket) {
        (None, k + 2)
    } else {
        let a = match identifier_parser(tokens, k + 1, eoi) {
            Err(e) => {
                return Err(e);
            },
            Ok(p) => p,
        };
        let j = match expect_exec(tokens, k + 2, &Token::RightSqBracket, eoi) {
            Err(e) => {
                return Err(e);
            },
            Ok(p) => p,
        };
        (Some(a), j)
    };
    let (guard, m) = match expression_exec(tokens, j, 0, eoi, floats) {
        Err(e) => {
            return Err(e);
        },
        Ok(p) => p,
    };
    let m2 = match expect_exec(tokens, m, &Token::Arrow, eoi) {
        Err(e) => {
            return Err(e);
        },
        Ok(p) => p,
    };
    let (updates, n) = if token_at_is(tokens, m2, &Token::True) && token_at_is(tokens, m2 + 1, &Token::Semicolon) {
        (Vec::new(), m2 + 1)
    } else {
        match updates_exec(tokens, m2, eoi, floats) {
            Err(e) => {
                return Err(e);
            },
            Ok(p) => p,
        }
    };
    let end = match expect_exec(tokens, n, &Token::Semicolon, eoi) {
        Err(e) => {
            return Err(e);
        },
        Ok(p) => p,
    };
    let action_span = span_between(tokens, k, j, eoi);
    let span = span_between(tokens, k, end, eoi);
    Ok((Command { action, action_span, guard, updates, span }, end))
}

} // verus!
