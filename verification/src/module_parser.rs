//! Reads modules, renamed modules and reward structures of a PRISM model from tokens.
use crate::attribute_parser::{key_at, spans_tracked, token_is, TokensView};
use crate::command::Command;
use crate::declaration_parser::{
    command_at, command_parser, describes_command, describes_module, describes_name,
    describes_renamed, describes_rewards, describes_rewards_element, describes_variable,
    expect_at, expect_exec, identifier_at, identifier_parser, ready, variable_at,
    variable_declaration_parser, CommandSyntax, ModuleSyntax, RenameRuleSyntax,
    RenamedModuleSyntax, RewardsElementSyntax, RewardsSyntax, Sp, VariableSyntax,
};
use crate::expression_parser::{
    expected_at, expected_error, expression_at, expression_exec, float_values, span_between,
    token_at_is, tokens_span,
};
use crate::expressions::Expression;
use crate::identifier::Identifier;
use crate::lexer::lexed_view;
use crate::module::{Module, RenameRule, RenameRules, RenamedModule};
use crate::parse_error::{describes_error, patterns_view, ParserError, ParserErrorValue, Pattern, PatternValue};
use crate::rewards::{Rewards, RewardsElement, RewardsTarget};
use crate::spans::{FullSpan, Span};
use crate::token::{Token, TokenValue};
use crate::variables::VariableInfo;
use vstd::prelude::*;
use vstd::string::StringExecFns;

verus! {

type Expr = Expression<Identifier<FullSpan>, FullSpan>;

type Cmd = Command<Identifier<FullSpan>, FullSpan, Expr, Identifier<FullSpan>>;

/// What may stand where a module element or the end of the module is expected.
pub open spec fn module_element_patterns() -> Seq<PatternValue> {
    seq![
        PatternValue::Label("command"@),
        PatternValue::Label("variable declaration"@),
        PatternValue::Token(TokenValue::EndModule),
    ]
}

/// Reads the elements of a module from `k` on, up to and including `endmodule`: commands (which
/// start with `[`) and variable declarations (which start with a name). Gives the commands and
/// the declarations, each in order, and the index after `endmodule`.
#[verifier::opaque]
pub open spec fn module_elements_from(toks: TokensView, k: int, eoi: usize) -> Result<
    (Seq<CommandSyntax>, Seq<VariableSyntax>, int),
    ParserErrorValue,
>
    decreases toks.len() - k,
{
    if token_is(toks, k, TokenValue::EndModule) {
        Ok((seq![], seq![], k + 1))
    } else if token_is(toks, k, TokenValue::LeftSqBracket) {
        match command_at(toks, k, eoi) {
            Err(e) => Err(e),
            Ok((c, j)) => if k < j <= toks.len() {
                match module_elements_from(toks, j, eoi) {
                    Err(e) => Err(e),
                    Ok((cs, vs, m)) => Ok((seq![c] + cs, vs, m)),
                }
            } else {
                Err(expected_at(toks, j, eoi, module_element_patterns()))
            },
        }
    } else if key_at(toks, k) is Some {
        match variable_at(toks, k, k, eoi) {
            Err(e) => Err(e),
            Ok((v, j)) => if k < j <= toks.len() {
                match module_elements_from(toks, j, eoi) {
                    Err(e) => Err(e),
                    Ok((cs, vs, m)) => Ok((cs, seq![v] + vs, m)),
                }
            } else {
                Err(expected_at(toks, j, eoi, module_element_patterns()))
            },
        }
    } else {
        Err(expected_at(toks, k, eoi, module_element_patterns()))
    }
}

/// Reads a module `module name element* endmodule` at `k`, where `module` stands.
pub open spec fn module_at(toks: TokensView, k: int, eoi: usize) -> Result<(ModuleSyntax, int), ParserErrorValue> {
    match identifier_at(toks, k + 1, eoi) {
        Err(e) => Err(e),
        Ok(name) => match module_elements_from(toks, k + 2, eoi) {
            Err(e) => Err(e),
            Ok((commands, variables, end)) => Ok(
                (ModuleSyntax { name, commands, variables, span: tokens_span(toks, k, end, eoi) }, end),
            ),
        },
    }
}

/// Reads a renaming rule `old = new` at `k`.
pub open spec fn rename_rule_at(toks: TokensView, k: int, eoi: usize) -> Result<(RenameRuleSyntax, int), ParserErrorValue> {
    match identifier_at(toks, k, eoi) {
        Err(e) => Err(e),
        Ok(old_name) => match expect_at(toks, k + 1, TokenValue::Equal, eoi) {
            Err(e) => Err(e),
            Ok(j) => match identifier_at(toks, j, eoi) {
                Err(e) => Err(e),
                Ok(new_name) => Ok(
                    (RenameRuleSyntax { old_name, new_name, span: tokens_span(toks, k, j + 1, eoi) }, j + 1),
                ),
            },
        },
    }
}

/// Reads renaming rules `r1, r2, ...` (at least one) from `k` on.
pub open spec fn rename_rules_from(toks: TokensView, k: int, eoi: usize) -> Result<
    (Seq<RenameRuleSyntax>, int),
    ParserErrorValue,
>
    decreases toks.len() - k,
{
    match rename_rule_at(toks, k, eoi) {
        Err(e) => Err(e),
        Ok((r, j)) => if k < j && token_is(toks, j, TokenValue::Comma) {
            match rename_rules_from(toks, j + 1, eoi) {
                Err(e) => Err(e),
                Ok((rest, m)) => Ok((seq![r] + rest, m)),
            }
        } else {
            Ok((seq![r], j))
        },
    }
}

/// Reads a renamed module `module new = old [ rules ] endmodule` at `k`, where `module` stands;
/// the rules, separated by commas, may be none.
pub open spec fn renamed_module_at(toks: TokensView, k: int, eoi: usize) -> Result<
    (RenamedModuleSyntax, int),
    ParserErrorValue,
> {
    match identifier_at(toks, k + 1, eoi) {
        Err(e) => Err(e),
        Ok(new_name) => match expect_at(toks, k + 2, TokenValue::Equal, eoi) {
            Err(e) => Err(e),
            Ok(j) => match identifier_at(toks, j, eoi) {
                Err(e) => Err(e),
                Ok(old_name) => match expect_at(toks, j + 1, TokenValue::LeftSqBracket, eoi) {
                    Err(e) => Err(e),
                    Ok(j2) => {
                        let rules = if token_is(toks, j2, TokenValue::RightSqBracket) {
                            Ok((seq![], j2))
                        } else {
                            rename_rules_from(toks, j2, eoi)
                        };
                        match rules {
                            Err(e) => Err(e),
                            Ok((rules, m)) => match expect_at(toks, m, TokenValue::RightSqBracket, eoi) {
                                Err(e) => Err(e),
                                Ok(m2) => match expect_at(toks, m2, TokenValue::EndModule, eoi) {
                                    Err(e) => Err(e),
                                    Ok(end) => Ok(
                                        (
                                            RenamedModuleSyntax {
                                                old_name,
                                                new_name,
                                                rules,
                                                span: tokens_span(toks, k, end, eoi),
                                            },
                                            end,
                                        ),
                                    ),
                                },
                            },
                        }
                    },
                },
            },
        },
    }
}

/// Reads an entry of a reward structure `([action?])? condition : value ;` at `k`.
pub open spec fn rewards_element_at(toks: TokensView, k: int, eoi: usize) -> Result<
    (RewardsElementSyntax, int),
    ParserErrorValue,
> {
    let target = if token_is(toks, k, TokenValue::LeftSqBracket) {
        if token_is(toks, k + 1, TokenValue::RightSqBracket) {
            Ok((Some(None::<(Seq<char>, Sp)>), k + 2))
        } else {
            match identifier_at(toks, k + 1, eoi) {
                Err(e) => Err(e),
                Ok(a) => match expect_at(toks, k + 2, TokenValue::RightSqBracket, eoi) {
                    Err(e) => Err(e),
                    Ok(j) => Ok((Some(Some(a)), j)),
                },
            }
        }
    } else {
        Ok((None, k))
    };
    match target {
        Err(e) => Err(e),
        Ok((target, j)) => match expression_at(toks, j, 0, eoi) {
            Err(e) => Err(e),
            Ok((condition, m)) => match expect_at(toks, m, TokenValue::Colon, eoi) {
                Err(e) => Err(e),
                Ok(m2) => match expression_at(toks, m2, 0, eoi) {
                    Err(e) => Err(e),
                    Ok((value, n)) => match expect_at(toks, n, TokenValue::Semicolon, eoi) {
                        Err(e) => Err(e),
                        Ok(end) => Ok(
                            (
                                RewardsElementSyntax {
                                    target,
                                    condition,
                                    value,
                                    span: tokens_span(toks, k, end, eoi),
                                },
                                end,
                            ),
                        ),
                    },
                },
            },
        },
    }
}

/// Reads the entries of a reward structure from `k` on, up to and including `endrewards`; gives
/// the index after `endrewards`.
#[verifier::opaque]
pub open spec fn rewards_elements_from(toks: TokensView, k: int, eoi: usize) -> Result<
    (Seq<RewardsElementSyntax>, int),
    ParserErrorValue,
>
    decreases toks.len() - k,
{
    if token_is(toks, k, TokenValue::EndRewards) {
        Ok((seq![], k + 1))
    } else {
        match rewards_element_at(toks, k, eoi) {
            Err(e) => Err(e),
            Ok((x, j)) => if k < j <= toks.len() {
                match rewards_elements_from(toks, j, eoi) {
                    Err(e) => Err(e),
                    Ok((rest, m)) => Ok((seq![x] + rest, m)),
                }
            } else {
                Err(expected_at(toks, j, eoi, seq![PatternValue::Token(TokenValue::EndRewards)]))
            },
        }
    }
}

/// Reads a reward structure `rewards ("name")? entry* endrewards` at `k`, where `rewards` stands.
pub open spec fn rewards_at(toks: TokensView, k: int, eoi: usize) -> Result<(RewardsSyntax, int), ParserErrorValue> {
    let named = if token_is(toks, k + 1, TokenValue::Quote) {
        match identifier_at(toks, k + 2, eoi) {
            Err(e) => Err(e),
            Ok(n) => match expect_at(toks, k + 3, TokenValue::Quote, eoi) {
                Err(e) => Err(e),
                Ok(j) => Ok((Some(n), j)),
            },
        }
    } else {
        Ok((None, k + 1))
    };
    match named {
        Err(e) => Err(e),
        Ok((name, j)) => match rewards_elements_from(toks, j, eoi) {
            Err(e) => Err(e),
            Ok((entries, end)) => Ok((RewardsSyntax { name, entries, span: tokens_span(toks, k, end, eoi) }, end)),
        },
    }
}

/// The declarations `vs` are the ones that `xs` describes, local variables without a scope yet.
pub open spec fn describes_variables(
    vs: Seq<VariableInfo<FullSpan, Expr>>,
    xs: Seq<VariableSyntax>,
    fl: spec_fn(Seq<char>) -> u64,
) -> bool {
    &&& vs.len() == xs.len()
    &&& forall|i: int| 0 <= i < xs.len() ==> describes_variable(#[trigger] vs[i], xs[i], false, None, fl)
}

/// Reading the elements from `k` gives the commands `dc` and declarations `dv`, then what reading
/// from `i` gives.
#[verifier::opaque]
spec fn elements_after(
    toks: TokensView,
    k: int,
    i: int,
    eoi: usize,
    dc: Seq<CommandSyntax>,
    dv: Seq<VariableSyntax>,
) -> bool {
    match module_elements_from(toks, i, eoi) {
        Ok((cs, vs, m)) => module_elements_from(toks, k, eoi) == Ok::<
            (Seq<CommandSyntax>, Seq<VariableSyntax>, int),
            ParserErrorValue,
        >((dc + cs, dv + vs, m)),
        Err(e) => module_elements_from(toks, k, eoi) == Err::<
            (Seq<CommandSyntax>, Seq<VariableSyntax>, int),
            ParserErrorValue,
        >(e),
    }
}

proof fn lemma_elements_start(toks: TokensView, k: int, eoi: usize)
    ensures
        elements_after(toks, k, k, eoi, seq![], seq![]),
{
    reveal(elements_after);
    reveal(module_elements_from);
    match module_elements_from(toks, k, eoi) {
        Ok((cs, vs, m)) => {
            assert(seq![] + cs =~= cs);
            assert(seq![] + vs =~= vs);
        },
        Err(_) => {},
    }
}

proof fn lemma_elements_end(toks: TokensView, k: int, i: int, eoi: usize, dc: Seq<CommandSyntax>, dv: Seq<VariableSyntax>)
    requires
        elements_after(toks, k, i, eoi, dc, dv),
        token_is(toks, i, TokenValue::EndModule),
    ensures
        module_elements_from(toks, k, eoi) == Ok::<(Seq<CommandSyntax>, Seq<VariableSyntax>, int), ParserErrorValue>(
            (dc, dv, i + 1),
        ),
{
    reveal(elements_after);
    reveal(module_elements_from);
    assert(dc + seq![] =~= dc);
    assert(dv + seq![] =~= dv);
}

proof fn lemma_elements_command(
    toks: TokensView,
    k: int,
    i: int,
    eoi: usize,
    dc: Seq<CommandSyntax>,
    dv: Seq<VariableSyntax>,
)
    requires
        elements_after(toks, k, i, eoi, dc, dv),
        token_is(toks, i, TokenValue::LeftSqBracket),
    ensures
        match command_at(toks, i, eoi) {
            Err(e) => module_elements_from(toks, k, eoi) == Err::<
                (Seq<CommandSyntax>, Seq<VariableSyntax>, int),
                ParserErrorValue,
            >(e),
            Ok((x, j)) => i < j <= toks.len() ==> elements_after(toks, k, j, eoi, dc.push(x), dv),
        },
{
    reveal(elements_after);
    reveal(module_elements_from);
    match command_at(toks, i, eoi) {
        Err(e) => {},
        Ok((x, j)) => {
            if i < j <= toks.len() {
                match module_elements_from(toks, j, eoi) {
                    Ok((cs, vs, m)) => {
                        assert(dc + (seq![x] + cs) =~= dc.push(x) + cs);
                    },
                    Err(_) => {},
                }
            }
        },
    }
}

proof fn lemma_elements_variable(
    toks: TokensView,
    k: int,
    i: int,
    eoi: usize,
    dc: Seq<CommandSyntax>,
    dv: Seq<VariableSyntax>,
)
    requires
        elements_after(toks, k, i, eoi, dc, dv),
        !token_is(toks, i, TokenValue::EndModule),
        !token_is(toks, i, TokenValue::LeftSqBracket),
    ensures
        key_at(toks, i) is None ==> module_elements_from(toks, k, eoi) == Err::<
            (Seq<CommandSyntax>, Seq<VariableSyntax>, int),
            ParserErrorValue,
        >(expected_at(toks, i, eoi, module_element_patterns())),
        key_at(toks, i) is Some ==> match variable_at(toks, i, i, eoi) {
            Err(e) => module_elements_from(toks, k, eoi) == Err::<
                (Seq<CommandSyntax>, Seq<VariableSyntax>, int),
                ParserErrorValue,
            >(e),
            Ok((x, j)) => i < j <= toks.len() ==> elements_after(toks, k, j, eoi, dc, dv.push(x)),
        },
{
    reveal(elements_after);
    reveal(module_elements_from);
    if key_at(toks, i) is Some {
        match variable_at(toks, i, i, eoi) {
            Err(e) => {},
            Ok((x, j)) => {
                if i < j <= toks.len() {
                    match module_elements_from(toks, j, eoi) {
                        Ok((cs, vs, m)) => {
                            assert(dv + (seq![x] + vs) =~= dv.push(x) + vs);
                        },
                        Err(_) => {},
                    }
                }
            },
        }
    }
}

/// Reads the elements of a module from `k` on; see [`module_elements_from`].
fn module_elements_parser<P: Fn(&str) -> u64>(tokens: &Vec<(Token, FullSpan)>, k: usize, eoi: usize, floats: &P) -> (r: Result<
    (Vec<Cmd>, Vec<VariableInfo<FullSpan, Expr>>, usize),
    ParserError,
>)
    requires
        k <= tokens@.len(),
        ready(tokens@, *floats),
    ensures
        match (r, module_elements_from(lexed_view(tokens@), k as int, eoi)) {
            (Ok((cs, vs, j)), Ok((xc, xv, m))) => cs@.len() == xc.len() && (forall|i: int|
                0 <= i < xc.len() ==> describes_command(#[trigger] cs@[i], xc[i], float_values(*floats)))
                && describes_variables(vs@, xv, float_values(*floats)) && j == m && k < j <= tokens@.len(),
            (Err(e), Err(v)) => describes_error(e, v),
            _ => false,
        },
{
    let ghost toks = lexed_view(tokens@);
    let ghost fl = float_values(*floats);
    let mut commands: Vec<Cmd> = Vec::new();
    let mut variables: Vec<VariableInfo<FullSpan, Expr>> = Vec::new();
    let ghost mut dc: Seq<CommandSyntax> = seq![];
    let ghost mut dv: Seq<VariableSyntax> = seq![];
    let mut i = k;
    proof {
        lemma_elements_start(toks, k as int, eoi);
    }
    loop
        invariant
            toks == lexed_view(tokens@),
            fl == float_values(*floats),
            k <= i <= tokens@.len(),
            ready(tokens@, *floats),
            commands@.len() == dc.len(),
            forall|p: int| 0 <= p < dc.len() ==> describes_command(#[trigger] commands@[p], dc[p], fl),
            describes_variables(variables@, dv, fl),
            elements_after(toks, k as int, i as int, eoi, dc, dv),
        decreases tokens@.len() - i,
    {
        if token_at_is(tokens, i, &Token::EndModule) {
            proof {
                lemma_elements_end(toks, k as int, i as int, eoi, dc, dv);
            }
            return Ok((commands, variables, i + 1));
        } else if token_at_is(tokens, i, &Token::LeftSqBracket) {
            proof {
                lemma_elements_command(toks, k as int, i as int, eoi, dc, dv);
            }
            let (c, j) = match command_parser(tokens, i, eoi, floats) {
                Err(e) => {
                    return Err(e);
                },
                Ok(p) => p,
            };
            proof {
                dc = dc.push(command_at(toks, i as int, eoi)->Ok_0.0);
            }
            commands.push(c);
            i = j;
        } else {
            proof {
                lemma_elements_variable(toks, k as int, i as int, eoi, dc, dv);
            }
            let is_name = if i < tokens.len() {
                match tokens[i].0 {
                    Token::Identifier(_) => true,
                    Token::T => true,
                    _ => false,
                }
            } else {
                false
            };
            if !is_name {
                let expected = vec![
                    Pattern::Label(String::from_str("command")),
                    Pattern::Label(String::from_str("variable declaration")),
                    Pattern::Token(Token::EndModule),
                ];
                assert(patterns_view(expected@) =~= module_element_patterns());
                return Err(expected_error(tokens, i, eoi, expected));
            }
            let (v, j) = match variable_declaration_parser(tokens, i, eoi, floats) {
                Err(e) => {
                    return Err(e);
                },
                Ok(p) => p,
            };
            proof {
                dv = dv.push(variable_at(toks, i as int, i as int, eoi)->Ok_0.0);
            }
            variables.push(v);
            i = j;
        }
    }
}

/// Reads a module at `k`, where `module` stands; see [`module_at`]. Gives the module (its
/// commands), its variable declarations apart, and the index after `endmodule`.
pub fn module_parser<P: Fn(&str) -> u64>(tokens: &Vec<(Token, FullSpan)>, k: usize, eoi: usize, floats: &P) -> (r: Result<
    (Module<Identifier<FullSpan>, FullSpan, Expr, Identifier<FullSpan>>, Vec<VariableInfo<FullSpan, Expr>>, usize),
    ParserError,
>)
    requires
        k < tokens@.len(),
        ready(tokens@, *floats),
    ensures
        match (r, module_at(lexed_view(tokens@), k as int, eoi)) {
            (Ok((md, vs, j)), Ok((x, m))) => describes_module(md, x, float_values(*floats))
                && describes_variables(vs@, x.variables, float_values(*floats)) && j == m && k < j
                <= tokens@.len(),
            (Err(e), Err(v)) => describes_error(e, v),
            _ => false,
        },
{
    let name = match identifier_parser(tokens, k + 1, eoi) {
        Err(e) => {
            return Err(e);
        },
        Ok(p) => p,
    };
    let (commands, variables, end) = match module_elements_parser(tokens, k + 2, eoi, floats) {
        Err(e) => {
            return Err(e);
        },
        Ok(p) => p,
    };
    let span = span_between(tokens, k, end, eoi);
    Ok((Module { name, commands, span }, variables, end))
}

/// Reads a renaming rule at `k`; see [`rename_rule_at`].
fn rename_rule_parser(tokens: &Vec<(Token, FullSpan)>, k: usize, eoi: usize) -> (r: Result<
    (RenameRule<FullSpan>, usize),
    ParserError,
>)
    requires
        k <= tokens@.len(),
        tokens@.len() <= usize::MAX,
        spans_tracked(lexed_view(tokens@)),
    ensures
        match (r, rename_rule_at(lexed_view(tokens@), k as int, eoi)) {
            (Ok((v, j)), Ok((x, m))) => describes_name(v.old_name, x.old_name) && describes_name(
                v.new_name,
                x.new_name,
            ) && v.span.spec_range() == x.span && j == m && k < j <= tokens@.len(),
            (Err(e), Err(v)) => describes_error(e, v),
            _ => false,
        },
{
    let old_name = match identifier_parser(tokens, k, eoi) {
        Err(e) => {
            return Err(e);
        },
        Ok(p) => p,
    };
    let j = match expect_exec(tokens, k + 1, &Token::Equal, eoi) {
        Err(e) => {
            return Err(e);
        },
        Ok(p) => p,
    };
    let new_name = match identifier_parser(tokens, j, eoi) {
        Err(e) => {
            return Err(e);
        },
        Ok(p) => p,
    };
    let span = span_between(tokens, k, j + 1, eoi);
    Ok((RenameRule { old_name, new_name, span }, j + 1))
}

/// The rules `rs` are the ones that `xs` describes.
pub open spec fn describes_rules(rs: Seq<RenameRule<FullSpan>>, xs: Seq<RenameRuleSyntax>) -> bool {
    &&& rs.len() == xs.len()
    &&& forall|i: int|
        0 <= i < xs.len() ==> {
            let r = #[trigger] rs[i];
            &&& describes_name(r.old_name, xs[i].old_name)
            &&& describes_name(r.new_name, xs[i].new_name)
            &&& r.span.spec_range() == xs[i].span
        }
}

/// Reads renaming rules from `k` on; see [`rename_rules_from`].
fn rename_rules_parser(tokens: &Vec<(Token, FullSpan)>, k: usize, eoi: usize) -> (r: Result<
    (Vec<RenameRule<FullSpan>>, usize),
    ParserError,
>)
    requires
        k <= tokens@.len(),
        tokens@.len() <= usize::MAX,
        spans_tracked(lexed_view(tokens@)),
    ensures
        match (r, rename_rules_from(lexed_view(tokens@), k as int, eoi)) {
            (Ok((v, j)), Ok((x, m))) => describes_rules(v@, x) && j == m && k < j <= tokens@.len(),
            (Err(e), Err(v)) => describes_error(e, v),
            _ => false,
        },
{
    let ghost toks = lexed_view(tokens@);
    let mut out: Vec<RenameRule<FullSpan>> = Vec::new();
    let ghost mut done: Seq<RenameRuleSyntax> = seq![];
    let mut i = k;
    loop
        invariant
            toks == lexed_view(tokens@),
            k <= i <= tokens@.len(),
            tokens@.len() <= usize::MAX,
            spans_tracked(toks),
            describes_rules(out@, done),
            match rename_rules_from(toks, i as int, eoi) {
                Ok((rest, m)) => rename_rules_from(toks, k as int, eoi) == Ok::<
                    (Seq<RenameRuleSyntax>, int),
                    ParserErrorValue,
                >((done + rest, m)),
                Err(e) => rename_rules_from(toks, k as int, eoi) == Err::<
                    (Seq<RenameRuleSyntax>, int),
                    ParserErrorValue,
                >(e),
            },
        decreases tokens@.len() - i,
    {
        let (a, j) = match rename_rule_parser(tokens, i, eoi) {
            Err(e) => {
                return Err(e);
            },
            Ok(p) => p,
        };
        let ghost x = rename_rule_at(toks, i as int, eoi)->Ok_0.0;
        proof {
            if token_is(toks, j as int, TokenValue::Comma) {
                match rename_rules_from(toks, j + 1, eoi) {
                    Ok((rest, m)) => {
                        assert(done + (seq![x] + rest) =~= done.push(x) + rest);
                    },
                    Err(_) => {},
                }
            } else {
                assert(done + seq![x] =~= done.push(x));
            }
            done = done.push(x);
        }
        out.push(a);
        if token_at_is(tokens, j, &Token::Comma) {
            i = j + 1;
        } else {
            return Ok((out, j));
        }
    }
}

/// Reads a renamed module at `k`, where `module` stands; see [`renamed_module_at`].
pub fn renamed_module_parser(tokens: &Vec<(Token, FullSpan)>, k: usize, eoi: usize) -> (r: Result<
    (RenamedModule<FullSpan>, usize),
    ParserError,
>)
    requires
        k < tokens@.len(),
        tokens@.len() <= usize::MAX,
        spans_tracked(lexed_view(tokens@)),
    ensures
        match (r, renamed_module_at(lexed_view(tokens@), k as int, eoi)) {
            (Ok((v, j)), Ok((x, m))) => describes_renamed(v, x) && j == m && k < j <= tokens@.len(),
            (Err(e), Err(v)) => describes_error(e, v),
            _ => false,
        },
{
    let new_name = match identifier_parser(tokens, k + 1, eoi) {
        Err(e) => {
            return Err(e);
        },
        Ok(p) => p,
    };
    let j = match expect_exec(tokens, k + 2, &Token::Equal, eoi) {
        Err(e) => {
            return Err(e);
        },
        Ok(p) => p,
    };
    let old_name = match identifier_parser(tokens, j, eoi) {
        Err(e) => {
            return Err(e);
        },
        Ok(p) => p,
    };
    let j2 = match expect_exec(tokens, j + 1, &Token::LeftSqBracket, eoi) {
        Err(e) => {
            return Err(e);
        },
        Ok(p) => p,
    };
    let (rules, m) = if token_at_is(tokens, j2, &Token::RightSqBracket) {
        (Vec::new(), j2)
    } else {
        match rename_rules_parser(tokens, j2, eoi) {
            Err(e) => {
                return Err(e);
            },
            Ok(p) => p,
        }
    };
    let m2 = match expect_exec(tokens, m, &Token::RightSqBracket, eoi) {
        Err(e) => {
            return Err(e);
        },
        Ok(p) => p,
    };
    let end = match expect_exec(tokens, m2, &Token::EndModule, eoi) {
        Err(e) => {
            return Err(e);
        },
        Ok(p) => p,
    };
    let span = span_between(tokens, k, end, eoi);
    Ok((RenamedModule { old_name, new_name, rename_rules: RenameRules { rules }, span }, end))
}

/// Reads an entry of a reward structure at `k`; see [`rewards_element_at`].
fn rewards_element_parser<P: Fn(&str) -> u64>(tokens: &Vec<(Token, FullSpan)>, k: usize, eoi: usize, floats: &P) -> (r: Result<
    (RewardsElement<FullSpan, Expr, Identifier<FullSpan>>, usize),
    ParserError,
>)
    requires
        k <= tokens@.len(),
        ready(tokens@, *floats),
    ensures
        match (r, rewards_element_at(lexed_view(tokens@), k as int, eoi)) {
            (Ok((v, j)), Ok((x, m))) => describes_rewards_element(v, x, float_values(*floats)) && j == m
                && k < j <= tokens@.len(),
            (Err(e), Err(v)) => describes_error(e, v),
            _ => false,
        },
{
    let (target, j) = if token_at_is(tokens, k, &Token::LeftSqBracket) {
        if token_at_is(tokens, k + 1, &Token::RightSqBracket) {
            (RewardsTarget::Action(None), k + 2)
        } else {
            let a = match identifier_parser(tokens, k + 1, eoi) {
                Err(e) => {
                    return Err(e);
                },
                Ok(p) => p,
            };
            let j = match expect_exec(tokens, k + 2, &Token::RightSqBracket, eoi) {
                Err(e) => {
                    return Err(e);
                },
                Ok(p) => p,
            };
            (RewardsTarget::Action(Some(a)), j)
        }
    } else {
        (RewardsTarget::State, k)
    };
    let (condition, m) = match expression_exec(tokens, j, 0, eoi, floats) {
        Err(e) => {
            return Err(e);
        },
        Ok(p) => p,
    };
    let m2 = match expect_exec(tokens, m, &Token::Colon, eoi) {
        Err(e) => {
            return Err(e);
        },
        Ok(p) => p,
    };
    let (value, n) = match expression_exec(tokens, m2, 0, eoi, floats) {
        Err(e) => {
            return Err(e);
        },
        Ok(p) => p,
    };
    let end = match expect_exec(tokens, n, &Token::Semicolon, eoi) {
        Err(e) => {
            return Err(e);
        },
        Ok(p) => p,
    };
    let span = span_between(tokens, k, end, eoi);
    Ok((RewardsElement { target, condition, value, span }, end))
}

/// Reading the entries from `k` gives `done`, then what reading from `i` gives.
#[verifier::opaque]
spec fn entries_after(toks: TokensView, k: int, i: int, eoi: usize, done: Seq<RewardsElementSyntax>) -> bool {
    match rewards_elements_from(toks, i, eoi) {
        Ok((rest, m)) => rewards_elements_from(toks, k, eoi) == Ok::<
            (Seq<RewardsElementSyntax>, int),
            ParserErrorValue,
        >((done + rest, m)),
        Err(e) => rewards_elements_from(toks, k, eoi) == Err::<(Seq<RewardsElementSyntax>, int), ParserErrorValue>(e),
    }
}

proof fn lemma_entries_start(toks: TokensView, k: int, eoi: usize)
    ensures
        entries_after(toks, k, k, eoi, seq![]),
{
    reveal(entries_after);
    match rewards_elements_from(toks, k, eoi) {
        Ok((rest, m)) => {
            assert(seq![] + rest =~= rest);
        },
        Err(_) => {},
    }
}

proof fn lemma_entries_step(toks: TokensView, k: int, i: int, eoi: usize, done: Seq<RewardsElementSyntax>)
    requires
        entries_after(toks, k, i, eoi, done),
    ensures
        token_is(toks, i, TokenValue::EndRewards) ==> rewards_elements_from(toks, k, eoi) == Ok::<
            (Seq<RewardsElementSyntax>, int),
            ParserErrorValue,
        >((done, i + 1)),
        !token_is(toks, i, TokenValue::EndRewards) ==> match rewards_element_at(toks, i, eoi) {
            Err(e) => rewards_elements_from(toks, k, eoi) == Err::<
                (Seq<RewardsElementSyntax>, int),
                ParserErrorValue,
            >(e),
            Ok((x, j)) => i < j <= toks.len() ==> entries_after(toks, k, j, eoi, done.push(x)),
        },
{
    reveal(entries_after);
    reveal(rewards_elements_from);
    if token_is(toks, i, TokenValue::EndRewards) {
        assert(done + seq![] =~= done);
    } else {
        match rewards_element_at(toks, i, eoi) {
            Err(e) => {},
            Ok((x, j)) => {
                if i < j <= toks.len() {
                    match rewards_elements_from(toks, j, eoi) {
                        Ok((rest, m)) => {
                            assert(done + (seq![x] + rest) =~= done.push(x) + rest);
                        },
                        Err(_) => {},
                    }
                }
            },
        }
    }
}

/// Reads the entries of a reward structure from `k` on; see [`rewards_elements_from`].
fn rewards_elements_parser<P: Fn(&str) -> u64>(tokens: &Vec<(Token, FullSpan)>, k: usize, eoi: usize, floats: &P) -> (r: Result<
    (Vec<RewardsElement<FullSpan, Expr, Identifier<FullSpan>>>, usize),
    ParserError,
>)
    requires
        k <= tokens@.len(),
        ready(tokens@, *floats),
    ensures
        match (r, rewards_elements_from(lexed_view(tokens@), k as int, eoi)) {
            (Ok((v, j)), Ok((x, m))) => v@.len() == x.len() && (forall|i: int|
                0 <= i < x.len() ==> describes_rewards_element(#[trigger] v@[i], x[i], float_values(*floats)))
                && j == m && k < j <= tokens@.len(),
            (Err(e), Err(v)) => describes_error(e, v),
            _ => false,
        },
{
    let ghost toks = lexed_view(tokens@);
    let ghost fl = float_values(*floats);
    let mut out: Vec<RewardsElement<FullSpan, Expr, Identifier<FullSpan>>> = Vec::new();
    let ghost mut done: Seq<RewardsElementSyntax> = seq![];
    let mut i = k;
    proof {
        lemma_entries_start(toks, k as int, eoi);
    }
    loop
        invariant
            toks == lexed_view(tokens@),
            fl == float_values(*floats),
            k <= i <= tokens@.len(),
            ready(tokens@, *floats),
            out@.len() == done.len(),
            forall|p: int| 0 <= p < done.len() ==> describes_rewards_element(#[trigger] out@[p], done[p], fl),
            entries_after(toks, k as int, i as int, eoi, done),
        decreases tokens@.len() - i,
    {
        proof {
            lemma_entries_step(toks, k as int, i as int, eoi, done);
        }
        if token_at_is(tokens, i, &Token::EndRewards) {
            return Ok((out, i + 1));
        }
        let (x, j) = match rewards_element_parser(tokens, i, eoi, floats) {
            Err(e) => {
                return Err(e);
            },
            Ok(p) => p,
        };
        proof {
            done = done.push(rewards_element_at(toks, i as int, eoi)->Ok_0.0);
        }
        out.push(x);
        i = j;
    }
}

/// Reads a reward structure at `k`, where `rewards` stands; see [`rewards_at`].
pub fn rewards_parser<P: Fn(&str) -> u64>(tokens: &Vec<(Token, FullSpan)>, k: usize, eoi: usize, floats: &P) -> (r: Result<
    (Rewards<FullSpan, Expr, Identifier<FullSpan>>, usize),
    ParserError,
>)
    requires
        k < tokens@.len(),
        ready(tokens@, *floats),
    ensures
        match (r, rewards_at(lexed_view(tokens@), k as int, eoi)) {
            (Ok((v, j)), Ok((x, m))) => describes_rewards(v, x, float_values(*floats)) && j == m && k < j
                <= tokens@.len(),
            (Err(e), Err(v)) => describes_error(e, v),
            _ => false,
        },
{
    let (name, j) = if token_at_is(tokens, k + 1, &Token::Quote) {
        let n = match identifier_parser(tokens, k + 2, eoi) {
            Err(e) => {
                return Err(e);
            },
            Ok(p) => p,
        };
        let j = match expect_exec(tokens, k + 3, &Token::Quote, eoi) {
            Err(e) => {
                return Err(e);
            },
            Ok(p) => p,
        };
        (Some(n), j)
    } else {
        (None, k + 1)
    };
    let (entries, end) = match rewards_elements_parser(tokens, j, eoi, floats) {
        Err(e) => {
            return Err(e);
        },
        Ok(p) => p,
    };
    let span = span_between(tokens, k, end, eoi);
    Ok((Rewards { name, entries, span }, end))
}

} // verus!
