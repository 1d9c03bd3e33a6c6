//! Reads queries (properties) from tokens and from source text.
use crate::attribute_parser::{found_at, input_end, spans_tracked, token_is, TokensView};
use crate::declaration_parser::{expect_at, expect_exec, identifier_at, identifier_parser, ready};
use crate::expression_parser::{describes_expr, expected_at, expected_error, expression_at, expression_exec, float_values, lemma_lexed_tracked, parses_floats, source_integers_fit, token_at_is, ExprSyntax};
use crate::expressions::Expression;
use crate::identifier::Identifier;
use crate::lexer::{lex, lex_errors, lexed_view, raw_lex, LexError};
use crate::parse_error::{describes_error, describes_lex_failures, patterns_view, ParserError, ParserErrorValue, Pattern, PatternValue};
use crate::properties::{bound_mapped, path_mapped, reward_mapped, state_mapped, Bound, BoundOperator, NonDeterminismKind, PathFormula, Query, RewardFormula, StateFormula};
use crate::spans::{FullSpan, Span};
use crate::token::{Token, TokenValue};
use vstd::prelude::*;

verus! {

type Expr = Expression<Identifier<FullSpan>, FullSpan>;

/// A query as read from tokens; the formulas hold expressions as read from tokens.
pub enum QuerySyntax {
    /// See [`Query::ProbabilityValue`].
    ProbabilityValue { non_determinism: Option<NonDeterminismKind>, path: PathFormula<ExprSyntax> },
    /// See [`Query::StateFormula`].
    StateFormula(StateFormula<ExprSyntax>),
    /// See [`Query::RewardBound`].
    RewardBound {
        non_determinism: Option<NonDeterminismKind>,
        name: Option<Seq<char>>,
        bound: Bound<ExprSyntax>,
        reward: RewardFormula<ExprSyntax>,
    },
    /// See [`Query::RewardValue`].
    RewardValue {
        non_determinism: Option<NonDeterminismKind>,
        name: Option<Seq<char>>,
        reward: RewardFormula<ExprSyntax>,
    },
    /// See [`Query::TimeBound`].
    TimeBound {
        non_determinism: Option<NonDeterminismKind>,
        bound: Bound<ExprSyntax>,
        reward: RewardFormula<ExprSyntax>,
    },
    /// See [`Query::TimeValue`].
    TimeValue { non_determinism: Option<NonDeterminismKind>, reward: RewardFormula<ExprSyntax> },
}

/// The relation "the expression is the one that the syntax describes".
pub open spec fn described_by(fl: spec_fn(Seq<char>) -> u64) -> spec_fn(ExprSyntax, Expr) -> bool {
    |x: ExprSyntax, e: Expr| describes_expr(e, x, fl)
}

/// The optional reward name `n` is the name that `x` gives.
pub open spec fn describes_reward_name(n: Option<String>, x: Option<Seq<char>>) -> bool {
    match (n, x) {
        (Some(a), Some(b)) => a@ == b,
        (None, None) => true,
        _ => false,
    }
}

/// The query `q` is the one that `x` describes.
pub open spec fn describes_query(q: Query<Expr>, x: QuerySyntax, fl: spec_fn(Seq<char>) -> u64) -> bool {
    let re = described_by(fl);
    match (x, q) {
        (
            QuerySyntax::ProbabilityValue { non_determinism: n, path: p },
            Query::ProbabilityValue { non_determinism: m, path: r },
        ) => n == m && path_mapped(p, r, re),
        (QuerySyntax::StateFormula(s), Query::StateFormula(t)) => state_mapped(s, t, re),
        (
            QuerySyntax::RewardBound { non_determinism: n, name: a, bound: b, reward: w },
            Query::RewardBound { non_determinism: m, name: c, bound: d, reward: v },
        ) => n == m && describes_reward_name(c, a) && bound_mapped(b, d, re) && reward_mapped(w, v, re),
        (
            QuerySyntax::RewardValue { non_determinism: n, name: a, reward: w },
            Query::RewardValue { non_determinism: m, name: c, reward: v },
        ) => n == m && describes_reward_name(c, a) && reward_mapped(w, v, re),
        (
            QuerySyntax::TimeBound { non_determinism: n, bound: b, reward: w },
            Query::TimeBound { non_determinism: m, bound: d, reward: v },
        ) => n == m && bound_mapped(b, d, re) && reward_mapped(w, v, re),
        (
            QuerySyntax::TimeValue { non_determinism: n, reward: w },
            Query::TimeValue { non_determinism: m, reward: v },
        ) => n == m && reward_mapped(w, v, re),
        _ => false,
    }
}

/// The comparison that the token at `k` stands for, if it is one.
pub open spec fn bound_operator_at(toks: TokensView, k: int) -> Option<BoundOperator> {
    match found_at(toks, k) {
        Some(TokenValue::LessThan) => Some(BoundOperator::LessThan),
        Some(TokenValue::LessOrEqual) => Some(BoundOperator::LessOrEqual),
        Some(TokenValue::GreaterThan) => Some(BoundOperator::GreaterThan),
        Some(TokenValue::GreaterOrEqual) => Some(BoundOperator::GreaterOrEqual),
        _ => None,
    }
}

/// What may stand where a bound is expected.
pub open spec fn bound_patterns() -> Seq<PatternValue> {
    seq![
        PatternValue::Token(TokenValue::LessThan),
        PatternValue::Token(TokenValue::LessOrEqual),
        PatternValue::Token(TokenValue::GreaterThan),
        PatternValue::Token(TokenValue::GreaterOrEqual),
    ]
}

/// Reads a bound `op expr` at `k`.
pub open spec fn bound_at(toks: TokensView, k: int, eoi: usize) -> Result<(Bound<ExprSyntax>, int), ParserErrorValue> {
    match bound_operator_at(toks, k) {
        Some(operator) => match expression_at(toks, k + 1, 0, eoi) {
            Err(e) => Err(e),
            Ok((value, j)) => Ok((Bound { operator, value }, j)),
        },
        None => Err(expected_at(toks, k, eoi, bound_patterns())),
    }
}

/// Whether a keyword asks to minimise, to maximise, or neither.
pub open spec fn kind_of(t: TokenValue) -> Option<NonDeterminismKind> {
    if t is PMax || t is RMax || t is TMax || t is LRAMax || t is Max {
        Some(NonDeterminismKind::Maximise)
    } else if t is PMin || t is RMin || t is TMin || t is LRAMin || t is Min {
        Some(NonDeterminismKind::Minimise)
    } else {
        None
    }
}

/// Whether a token starts a probability: `P`, `Pmax` or `Pmin`.
pub open spec fn is_probability(t: TokenValue) -> bool {
    t is P || t is PMax || t is PMin
}

/// Whether a token starts a long-run average: `LRA`, `LRAmax` or `LRAmin`.
pub open spec fn is_long_run_average(t: TokenValue) -> bool {
    t is LRA || t is LRAMax || t is LRAMin
}

/// Reads a state formula at `k`: `P bound [ path ]`, `LRA bound path`, or an expression.
pub open spec fn state_at(toks: TokensView, k: int, eoi: usize) -> Result<(StateFormula<ExprSyntax>, int), ParserErrorValue>
    decreases toks.len() - k, 0int,
{
    if 0 <= k < toks.len() && is_probability(toks[k].0) {
        match bound_at(toks, k + 1, eoi) {
            Err(e) => Err(e),
            Ok((bound, j)) => match expect_at(toks, j, TokenValue::LeftSqBracket, eoi) {
                Err(e) => Err(e),
                Ok(j2) => if k < j2 <= toks.len() {
                    match path_at(toks, j2, eoi) {
                        Err(e) => Err(e),
                        Ok((path, m)) => match expect_at(toks, m, TokenValue::RightSqBracket, eoi) {
                            Err(e) => Err(e),
                            Ok(end) => Ok(
                                (
                                    StateFormula::ProbabilityBound {
                                        non_determinism: kind_of(toks[k].0),
                                        bound,
                                        path: Box::new(path),
                                    },
                                    end,
                                ),
                            ),
                        },
                    }
                } else {
                    Err(expected_at(toks, j2, eoi, seq![]))
                },
            },
        }
    } else if 0 <= k < toks.len() && is_long_run_average(toks[k].0) {
        match bound_at(toks, k + 1, eoi) {
            Err(e) => Err(e),
            Ok((bound, j)) => if k < j <= toks.len() {
                match path_at(toks, j, eoi) {
                    Err(e) => Err(e),
                    Ok((path, m)) => Ok(
                        (
                            StateFormula::LongRunAverage {
                                non_determinism: kind_of(toks[k].0),
                                bound,
                                path: Box::new(path),
                            },
                            m,
                        ),
                    ),
                }
            } else {
                Err(expected_at(toks, j, eoi, seq![]))
            },
        }
    } else {
        match expression_at(toks, k, 0, eoi) {
            Err(e) => Err(e),
            Ok((x, j)) => Ok((StateFormula::Expression(x), j)),
        }
    }
}

/// Reads a path formula at `k`: `F bound? state`, `G state`, or `state U bound? state`.
pub open spec fn path_at(toks: TokensView, k: int, eoi: usize) -> Result<(PathFormula<ExprSyntax>, int), ParserErrorValue>
    decreases toks.len() - k, 1int,
{
    if token_is(toks, k, TokenValue::Finally) {
        if bound_operator_at(toks, k + 1) is Some {
            match bound_at(toks, k + 1, eoi) {
                Err(e) => Err(e),
                Ok((bound, j)) => if k < j <= toks.len() {
                    match state_at(toks, j, eoi) {
                        Err(e) => Err(e),
                        Ok((s, m)) => Ok((PathFormula::BoundedEventually { condition: Box::new(s), bound }, m)),
                    }
                } else {
                    Err(expected_at(toks, j, eoi, seq![]))
                },
            }
        } else {
            match state_at(toks, k + 1, eoi) {
                Err(e) => Err(e),
                Ok((s, m)) => Ok((PathFormula::Eventually { condition: Box::new(s) }, m)),
            }
        }
    } else if token_is(toks, k, TokenValue::Generally) {
        match state_at(toks, k + 1, eoi) {
            Err(e) => Err(e),
            Ok((s, m)) => Ok((PathFormula::Generally { condition: Box::new(s) }, m)),
        }
    } else if 0 <= k <= toks.len() {
        match state_at(toks, k, eoi) {
            Err(e) => Err(e),
            Ok((before, j)) => match expect_at(toks, j, TokenValue::Until, eoi) {
                Err(e) => Err(e),
                Ok(j2) => if k < j2 <= toks.len() {
                    if bound_operator_at(toks, j2) is Some {
                        match bound_at(toks, j2, eoi) {
                            Err(e) => Err(e),
                            Ok((bound, m)) => if k < m <= toks.len() {
                                match state_at(toks, m, eoi) {
                                    Err(e) => Err(e),
                                    Ok((after, n)) => Ok(
                                        (
                                            PathFormula::BoundedUntil {
                                                before: Box::new(before),
                                                after: Box::new(after),
                                                bound,
                                            },
                                            n,
                                        ),
                                    ),
                                }
                            } else {
                                Err(expected_at(toks, m, eoi, seq![]))
                            },
                        }
                    } else {
                        match state_at(toks, j2, eoi) {
                            Err(e) => Err(e),
                            Ok((after, n)) => Ok(
                                (PathFormula::Until { before: Box::new(before), after: Box::new(after) }, n),
                            ),
                        }
                    }
                } else {
                    Err(expected_at(toks, j2, eoi, seq![]))
                },
            },
        }
    } else {
        Err(expected_at(toks, k, eoi, seq![]))
    }
}

/// What may stand where a reward formula is expected.
pub open spec fn reward_patterns() -> Seq<PatternValue> {
    seq![
        PatternValue::Token(TokenValue::Instantaneous),
        PatternValue::Token(TokenValue::Cumulative),
        PatternValue::Token(TokenValue::Finally),
        PatternValue::Token(TokenValue::LRA),
    ]
}

/// Reads a reward formula at `k`: `I=expr`, `C<=expr`, `F state` or `LRA`.
pub open spec fn reward_at(toks: TokensView, k: int, eoi: usize) -> Result<(RewardFormula<ExprSyntax>, int), ParserErrorValue> {
    if token_is(toks, k, TokenValue::Instantaneous) {
        match expect_at(toks, k + 1, TokenValue::Equal, eoi) {
            Err(e) => Err(e),
            Ok(j) => match expression_at(toks, j, 0, eoi) {
                Err(e) => Err(e),
                Ok((x, m)) => Ok((RewardFormula::Instantaneous { k: x }, m)),
            },
        }
    } else if token_is(toks, k, TokenValue::Cumulative) {
        match expect_at(toks, k + 1, TokenValue::LessOrEqual, eoi) {
            Err(e) => Err(e),
            Ok(j) => match expression_at(toks, j, 0, eoi) {
                Err(e) => Err(e),
                Ok((x, m)) => Ok((RewardFormula::Cumulative { k: x }, m)),
            },
        }
    } else if token_is(toks, k, TokenValue::Finally) {
        match state_at(toks, k + 1, eoi) {
            Err(e) => Err(e),
            Ok((s, m)) => Ok((RewardFormula::Finally { states: s }, m)),
        }
    } else if token_is(toks, k, TokenValue::LRA) {
        Ok((RewardFormula::LongRunAverage, k + 1))
    } else {
        Err(expected_at(toks, k, eoi, reward_patterns()))
    }
}

/// Reads the head of a reward query at `k`: `R{"name"}` with an optional `max` or `min`, `R`,
/// `Rmax` or `Rmin`. Gives the name, the kind and the index after the head.
pub open spec fn reward_head_at(toks: TokensView, k: int, eoi: usize) -> Result<
    (Option<Seq<char>>, Option<NonDeterminismKind>, int),
    ParserErrorValue,
> {
    if token_is(toks, k, TokenValue::R) && token_is(toks, k + 1, TokenValue::LeftCurlyBracket) {
        match expect_at(toks, k + 2, TokenValue::Quote, eoi) {
            Err(e) => Err(e),
            Ok(j) => match identifier_at(toks, j, eoi) {
                Err(e) => Err(e),
                Ok(name) => match expect_at(toks, j + 1, TokenValue::Quote, eoi) {
                    Err(e) => Err(e),
                    Ok(j2) => match expect_at(toks, j2, TokenValue::RightCurlyBracket, eoi) {
                        Err(e) => Err(e),
                        Ok(m) => if token_is(toks, m, TokenValue::Max) || token_is(toks, m, TokenValue::Min) {
                            Ok((Some(name.0), kind_of(toks[m].0), m + 1))
                        } else {
                            Ok((Some(name.0), None, m))
                        },
                    },
                },
            },
        }
    } else {
        Ok((None, kind_of(toks[k].0), k + 1))
    }
}

/// Reads `=? [ reward ]` or `bound [ reward ]` at `k`: the reward formula, with the bound if
/// there is one, and the index after `]`.
pub open spec fn reward_query_at(toks: TokensView, k: int, eoi: usize) -> Result<
    (Option<Bound<ExprSyntax>>, RewardFormula<ExprSyntax>, int),
    ParserErrorValue,
> {
    let head = if token_is(toks, k, TokenValue::Equal) {
        match expect_at(toks, k + 1, TokenValue::Questionmark, eoi) {
            Err(e) => Err(e),
            Ok(j) => Ok((None, j)),
        }
    } else {
        match bound_at(toks, k, eoi) {
            Err(e) => Err(e),
            Ok((b, j)) => Ok((Some(b), j)),
        }
    };
    match head {
        Err(e) => Err(e),
        Ok((bound, j)) => match expect_at(toks, j, TokenValue::LeftSqBracket, eoi) {
            Err(e) => Err(e),
            Ok(j2) => match reward_at(toks, j2, eoi) {
                Err(e) => Err(e),
                Ok((reward, m)) => match expect_at(toks, m, TokenValue::RightSqBracket, eoi) {
                    Err(e) => Err(e),
                    Ok(end) => Ok((bound, reward, end)),
                },
            },
        },
    }
}

/// A time query after its head at `k`, with the given kind.
#[verifier::opaque]
pub open spec fn time_query_at(toks: TokensView, k: int, kind: Option<NonDeterminismKind>, eoi: usize) -> Result<
    (QuerySyntax, int),
    ParserErrorValue,
> {
    match reward_query_at(toks, k, eoi) {
        Err(e) => Err(e),
        Ok((Some(bound), reward, end)) => Ok((QuerySyntax::TimeBound { non_determinism: kind, bound, reward }, end)),
        Ok((None, reward, end)) => Ok((QuerySyntax::TimeValue { non_determinism: kind, reward }, end)),
    }
}

/// A probability query `P=? [ path ]` at the start of the tokens.
#[verifier::opaque]
pub open spec fn probability_query_at(toks: TokensView, eoi: usize) -> Result<(QuerySyntax, int), ParserErrorValue> {
    match expect_at(toks, 2, TokenValue::Questionmark, eoi) {
        Err(e) => Err(e),
        Ok(j) => match expect_at(toks, j, TokenValue::LeftSqBracket, eoi) {
            Err(e) => Err(e),
            Ok(j2) => match path_at(toks, j2, eoi) {
                Err(e) => Err(e),
                Ok((path, m)) => match expect_at(toks, m, TokenValue::RightSqBracket, eoi) {
                    Err(e) => Err(e),
                    Ok(end) => Ok((QuerySyntax::ProbabilityValue { non_determinism: kind_of(toks[0].0), path }, end)),
                },
            },
        },
    }
}

/// A reward query at the start of the tokens.
#[verifier::opaque]
pub open spec fn reward_query(toks: TokensView, eoi: usize) -> Result<(QuerySyntax, int), ParserErrorValue> {
    match reward_head_at(toks, 0, eoi) {
        Err(e) => Err(e),
        Ok((name, kind, j)) => match reward_query_at(toks, j, eoi) {
            Err(e) => Err(e),
            Ok((Some(bound), reward, end)) => Ok(
                (QuerySyntax::RewardBound { non_determinism: kind, name, bound, reward }, end),
            ),
            Ok((None, reward, end)) => Ok((QuerySyntax::RewardValue { non_determinism: kind, name, reward }, end)),
        },
    }
}

/// A query that starts with `T`: an expression if one stands there, a time query otherwise.
#[verifier::opaque]
pub open spec fn word_t_query(toks: TokensView, eoi: usize) -> Result<(QuerySyntax, int), ParserErrorValue> {
    match expression_at(toks, 0, 0, eoi) {
        Ok((x, j)) => Ok((QuerySyntax::StateFormula(StateFormula::Expression(x)), j)),
        Err(_) => time_query_at(toks, 1, None, eoi),
    }
}

/// A state formula as a query at the start of the tokens.
#[verifier::opaque]
pub open spec fn state_query(toks: TokensView, eoi: usize) -> Result<(QuerySyntax, int), ParserErrorValue> {
    match state_at(toks, 0, eoi) {
        Err(e) => Err(e),
        Ok((s, j)) => Ok((QuerySyntax::StateFormula(s), j)),
    }
}

/// Reads a query at the start of the tokens, chosen by the first token.
pub open spec fn query_at(toks: TokensView, eoi: usize) -> Result<(QuerySyntax, int), ParserErrorValue> {
    if toks.len() > 0 && is_probability(toks[0].0) && token_is(toks, 1, TokenValue::Equal) {
        probability_query_at(toks, eoi)
    } else if toks.len() > 0 && (toks[0].0 is R || toks[0].0 is RMax || toks[0].0 is RMin) {
        reward_query(toks, eoi)
    } else if toks.len() > 0 && (toks[0].0 is TMax || toks[0].0 is TMin) {
        time_query_at(toks, 1, kind_of(toks[0].0), eoi)
    } else if toks.len() > 0 && toks[0].0 is T {
        word_t_query(toks, eoi)
    } else {
        state_query(toks, eoi)
    }
}

/// Reads a query that makes up all of the tokens.
pub open spec fn whole_query(toks: TokensView, eoi: usize) -> Result<QuerySyntax, ParserErrorValue> {
    match query_at(toks, eoi) {
        Err(e) => Err(e),
        Ok((q, j)) => if j < toks.len() {
            Err(expected_at(toks, j, eoi, seq![PatternValue::EndOfInput]))
        } else {
            Ok(q)
        },
    }
}

/// The kind that a keyword asks for; see [`kind_of`].
fn kind_of_token(t: &Token) -> (r: Option<NonDeterminismKind>)
    ensures
        r == kind_of(t@),
{
    match t {
        Token::PMax => Some(NonDeterminismKind::Maximise),
        Token::RMax => Some(NonDeterminismKind::Maximise),
        Token::TMax => Some(NonDeterminismKind::Maximise),
        Token::LRAMax => Some(NonDeterminismKind::Maximise),
        Token::Max => Some(NonDeterminismKind::Maximise),
        Token::PMin => Some(NonDeterminismKind::Minimise),
        Token::RMin => Some(NonDeterminismKind::Minimise),
        Token::TMin => Some(NonDeterminismKind::Minimise),
        Token::LRAMin => Some(NonDeterminismKind::Minimise),
        Token::Min => Some(NonDeterminismKind::Minimise),
        _ => None,
    }
}

/// The comparison that the token at `k` stands for; see [`bound_operator_at`].
fn bound_operator_exec(tokens: &Vec<(Token, FullSpan)>, k: usize) -> (r: Option<BoundOperator>)
    ensures
        r == bound_operator_at(lexed_view(tokens@), k as int),
{
    if k >= tokens.len() {
        return None;
    }
    match &tokens[k].0 {
        Token::LessThan => Some(BoundOperator::LessThan),
        Token::LessOrEqual => Some(BoundOperator::LessOrEqual),
        Token::GreaterThan => Some(BoundOperator::GreaterThan),
        Token::GreaterOrEqual => Some(BoundOperator::GreaterOrEqual),
        _ => None,
    }
}

/// Reads a bound at `k`; see [`bound_at`].
pub fn bound_parser<P: Fn(&str) -> u64>(tokens: &Vec<(Token, FullSpan)>, k: usize, eoi: usize, floats: &P) -> (r: Result<
    (Bound<Expr>, usize),
    ParserError,
>)
    requires
        k <= tokens@.len(),
        ready(tokens@, *floats),
    ensures
        match (r, bound_at(lexed_view(tokens@), k as int, eoi)) {
            (Ok((b, j)), Ok((x, m))) => bound_mapped(x, b, described_by(float_values(*floats))) && j == m && k < j
                <= tokens@.len(),
            (Err(e), Err(v)) => describes_error(e, v),
            _ => false,
        },
{
    match bound_operator_exec(tokens, k) {
        Some(operator) => match expression_exec(tokens, k + 1, 0, eoi, floats) {
            Err(e) => Err(e),
            Ok((value, j)) => Ok((Bound { operator, value }, j)),
        },
        None => {
            let expected = vec![
                Pattern::Token(Token::LessThan),
                Pattern::Token(Token::LessOrEqual),
                Pattern::Token(Token::GreaterThan),
                Pattern::Token(Token::GreaterOrEqual),
            ];
            assert(patterns_view(expected@) =~= bound_patterns());
            Err(expected_error(tokens, k, eoi, expected))
        },
    }
}

/// Reads a state formula at `k`; see [`state_at`].
pub fn state_formula_parser<P: Fn(&str) -> u64>(tokens: &Vec<(Token, FullSpan)>, k: usize, eoi: usize, floats: &P) -> (r: Result<
    (StateFormula<Expr>, usize),
    ParserError,
>)
    requires
        k <= tokens@.len(),
        ready(tokens@, *floats),
    ensures
        match (r, state_at(lexed_view(tokens@), k as int, eoi)) {
            (Ok((s, j)), Ok((x, m))) => state_mapped(x, s, described_by(float_values(*floats))) && j == m && k < j
                <= tokens@.len(),
            (Err(e), Err(v)) => describes_error(e, v),
            _ => false,
        },
    decreases tokens@.len() - k, 0int,
{
    let ghost toks = lexed_view(tokens@);
    let probability = k < tokens.len() && match &tokens[k].0 {
        Token::P => true,
        Token::PMax => true,
        Token::PMin => true,
        _ => false,
    };
    let average = k < tokens.len() && match &tokens[k].0 {
        Token::LRA => true,
        Token::LRAMax => true,
        Token::LRAMin => true,
        _ => false,
    };
    if probability {
        let (bound, j) = match bound_parser(tokens, k + 1, eoi, floats) {
            Err(e) => {
                return Err(e);
            },
            Ok(p) => p,
        };
        let j2 = match expect_exec(tokens, j, &Token::LeftSqBracket, eoi) {
            Err(e) => {
                return Err(e);
            },
            Ok(p) => p,
        };
        let (path, m) = match path_formula_parser(tokens, j2, eoi, floats) {
            Err(e) => {
                return Err(e);
            },
            Ok(p) => p,
        };
        let end = match expect_exec(tokens, m, &Token::RightSqBracket, eoi) {
            Err(e) => {
                return Err(e);
            },
            Ok(p) => p,
        };
        let non_determinism = kind_of_token(&tokens[k].0);
        Ok((StateFormula::ProbabilityBound { non_determinism, bound, path: Box::new(path) }, end))
    } else if average {
        let (bound, j) = match bound_parser(tokens, k + 1, eoi, floats) {
            Err(e) => {
                return Err(e);
            },
            Ok(p) => p,
        };
        let (path, m) = match path_formula_parser(tokens, j, eoi, floats) {
            Err(e) => {
                return Err(e);
            },
            Ok(p) => p,
        };
        let non_determinism = kind_of_token(&tokens[k].0);
        Ok((StateFormula::LongRunAverage { non_determinism, bound, path: Box::new(path) }, m))
    } else {
        match expression_exec(tokens, k, 0, eoi, floats) {
            Err(e) => Err(e),
            Ok((x, j)) => Ok((StateFormula::Expression(x), j)),
        }
    }
}

/// Reads a path formula at `k`; see [`path_at`].
pub fn path_formula_parser<P: Fn(&str) -> u64>(tokens: &Vec<(Token, FullSpan)>, k: usize, eoi: usize, floats: &P) -> (r: Result<
    (PathFormula<Expr>, usize),
    ParserError,
>)
    requires
        k <= tokens@.len(),
        ready(tokens@, *floats),
    ensures
        match (r, path_at(lexed_view(tokens@), k as int, eoi)) {
            (Ok((p, j)), Ok((x, m))) => path_mapped(x, p, described_by(float_values(*floats))) && j == m && k < j
                <= tokens@.len(),
            (Err(e), Err(v)) => describes_error(e, v),
            _ => false,
        },
    decreases tokens@.len() - k, 1int,
{
    if token_at_is(tokens, k, &Token::Finally) {
        if bound_operator_exec(tokens, k + 1).is_some() {
            let (bound, j) = match bound_parser(tokens, k + 1, eoi, floats) {
                Err(e) => {
                    return Err(e);
                },
                Ok(p) => p,
            };
            match state_formula_parser(tokens, j, eoi, floats) {
                Err(e) => Err(e),
                Ok((s, m)) => Ok((PathFormula::BoundedEventually { condition: Box::new(s), bound }, m)),
            }
        } else {
            match state_formula_parser(tokens, k + 1, eoi, floats) {
                Err(e) => Err(e),
                Ok((s, m)) => Ok((PathFormula::Eventually { condition: Box::new(s) }, m)),
            }
        }
    } else if token_at_is(tokens, k, &Token::Generally) {
        match state_formula_parser(tokens, k + 1, eoi, floats) {
            Err(e) => Err(e),
            Ok((s, m)) => Ok((PathFormula::Generally { condition: Box::new(s) }, m)),
        }
    } else {
        let (before, j) = match state_formula_parser(tokens, k, eoi, floats) {
            Err(e) => {
                return Err(e);
            },
            Ok(p) => p,
        };
        let j2 = match expect_exec(tokens, j, &Token::Until, eoi) {
            Err(e) => {
                return Err(e);
            },
            Ok(p) => p,
        };
        if bound_operator_exec(tokens, j2).is_some() {
            let (bound, m) = match bound_parser(tokens, j2, eoi, floats) {
                Err(e) => {
                    return Err(e);
                },
                Ok(p) => p,
            };
            match state_formula_parser(tokens, m, eoi, floats) {
                Err(e) => Err(e),
                Ok((after, n)) => Ok(
                    (PathFormula::BoundedUntil { before: Box::new(before), after: Box::new(after), bound }, n),
                ),
            }
        } else {
            match state_formula_parser(tokens, j2, eoi, floats) {
                Err(e) => Err(e),
                Ok((after, n)) => Ok((PathFormula::Until { before: Box::new(before), after: Box::new(after) }, n)),
            }
        }
    }
}

/// Reads a reward formula at `k`; see [`reward_at`].
pub fn reward_formula<P: Fn(&str) -> u64>(tokens: &Vec<(Token, FullSpan)>, k: usize, eoi: usize, floats: &P) -> (r: Result<
    (RewardFormula<Expr>, usize),
    ParserError,
>)
    requires
        k <= tokens@.len(),
        ready(tokens@, *floats),
    ensures
        match (r, reward_at(lexed_view(tokens@), k as int, eoi)) {
            (Ok((w, j)), Ok((x, m))) => reward_mapped(x, w, described_by(float_values(*floats))) && j == m && k < j
                <= tokens@.len(),
            (Err(e), Err(v)) => describes_error(e, v),
            _ => false,
        },
{
    if token_at_is(tokens, k, &Token::Instantaneous) {
        let j = match expect_exec(tokens, k + 1, &Token::Equal, eoi) {
            Err(e) => {
                return Err(e);
            },
            Ok(p) => p,
        };
        match expression_exec(tokens, j, 0, eoi, floats) {
            Err(e) => Err(e),
            Ok((x, m)) => Ok((RewardFormula::Instantaneous { k: x }, m)),
        }
    } else if token_at_is(tokens, k, &Token::Cumulative) {
        let j = match expect_exec(tokens, k + 1, &Token::LessOrEqual, eoi) {
            Err(e) => {
                return Err(e);
            },
            Ok(p) => p,
        };
        match expression_exec(tokens, j, 0, eoi, floats) {
            Err(e) => Err(e),
            Ok((x, m)) => Ok((RewardFormula::Cumulative { k: x }, m)),
        }
    } else if token_at_is(tokens, k, &Token::Finally) {
        match state_formula_parser(tokens, k + 1, eoi, floats) {
            Err(e) => Err(e),
            Ok((x, m)) => Ok((RewardFormula::Finally { states: x }, m)),
        }
    } else if token_at_is(tokens, k, &Token::LRA) {
        Ok((RewardFormula::LongRunAverage, k + 1))
    } else {
        let expected = vec![
            Pattern::Token(Token::Instantaneous),
            Pattern::Token(Token::Cumulative),
            Pattern::Token(Token::Finally),
            Pattern::Token(Token::LRA),
        ];
        assert(patterns_view(expected@) =~= reward_patterns());
        Err(expected_error(tokens, k, eoi, expected))
    }
}

/// Reads the head of a reward query at `k`, where `R`, `Rmax` or `Rmin` stands; see
/// [`reward_head_at`].
fn reward_name_and_min_max(tokens: &Vec<(Token, FullSpan)>, k: usize, eoi: usize) -> (r: Result<
    (Option<String>, Option<NonDeterminismKind>, usize),
    ParserError,
>)
    requires
        k < tokens@.len(),
        tokens@.len() <= usize::MAX,
        spans_tracked(lexed_view(tokens@)),
    ensures
        match (r, reward_head_at(lexed_view(tokens@), k as int, eoi)) {
            (Ok((n, kind, j)), Ok((x, kx, m))) => describes_reward_name(n, x) && kind == kx && j == m && k < j
                <= tokens@.len(),
            (Err(e), Err(v)) => describes_error(e, v),
            _ => false,
        },
{
    if token_at_is(tokens, k, &Token::R) && token_at_is(tokens, k + 1, &Token::LeftCurlyBracket) {
        let j = match expect_exec(tokens, k + 2, &Token::Quote, eoi) {
            Err(e) => {
                return Err(e);
            },
            Ok(p) => p,
        };
        let name = match identifier_parser(tokens, j, eoi) {
            Err(e) => {
                return Err(e);
            },
            Ok(p) => p,
        };
        let j2 = match expect_exec(tokens, j + 1, &Token::Quote, eoi) {
            Err(e) => {
                return Err(e);
            },
            Ok(p) => p,
        };
        let m = match expect_exec(tokens, j2, &Token::RightCurlyBracket, eoi) {
            Err(e) => {
                return Err(e);
            },
            Ok(p) => p,
        };
        if token_at_is(tokens, m, &Token::Max) || token_at_is(tokens, m, &Token::Min) {
            let kind = kind_of_token(&tokens[m].0);
            Ok((Some(name.name), kind, m + 1))
        } else {
            Ok((Some(name.name), None, m))
        }
    } else {
        Ok((None, kind_of_token(&tokens[k].0), k + 1))
    }
}

/// Both bounds are absent, or `b` is `a` with its value related by `re`.
pub open spec fn optional_bound_mapped(
    a: Option<Bound<ExprSyntax>>,
    b: Option<Bound<Expr>>,
    re: spec_fn(ExprSyntax, Expr) -> bool,
) -> bool {
    match (a, b) {
        (Some(x), Some(y)) => bound_mapped(x, y, re),
        (None, None) => true,
        _ => false,
    }
}

/// Reads `=? [ reward ]` or `bound [ reward ]` at `k`; see [`reward_query_at`].
fn reward_query_parser<P: Fn(&str) -> u64>(tokens: &Vec<(Token, FullSpan)>, k: usize, eoi: usize, floats: &P) -> (r: Result<
    (Option<Bound<Expr>>, RewardFormula<Expr>, usize),
    ParserError,
>)
    requires
        k <= tokens@.len(),
        ready(tokens@, *floats),
    ensures
        match (r, reward_query_at(lexed_view(tokens@), k as int, eoi)) {
            (Ok((b, w, j)), Ok((xb, xw, m))) => optional_bound_mapped(xb, b, described_by(float_values(*floats)))
                && reward_mapped(xw, w, described_by(float_values(*floats))) && j == m && k < j <= tokens@.len(),
            (Err(e), Err(v)) => describes_error(e, v),
            _ => false,
        },
{
    let (bound, j) = if token_at_is(tokens, k, &Token::Equal) {
        match expect_exec(tokens, k + 1, &Token::Questionmark, eoi) {
            Err(e) => {
                return Err(e);
            },
            Ok(j) => (None, j),
        }
    } else {
        match bound_parser(tokens, k, eoi, floats) {
            Err(e) => {
                return Err(e);
            },
            Ok((b, j)) => (Some(b), j),
        }
    };
    let j2 = match expect_exec(tokens, j, &Token::LeftSqBracket, eoi) {
        Err(e) => {
            return Err(e);
        },
        Ok(p) => p,
    };
    let (reward, m) = match reward_formula(tokens, j2, eoi, floats) {
        Err(e) => {
            return Err(e);
        },
        Ok(p) => p,
    };
    let end = match expect_exec(tokens, m, &Token::RightSqBracket, eoi) {
        Err(e) => {
            return Err(e);
        },
        Ok(p) => p,
    };
    Ok((bound, reward, end))
}

/// Reads a time query after its head at `k`; see [`time_query_at`].
fn time_query_parser<P: Fn(&str) -> u64>(
    tokens: &Vec<(Token, FullSpan)>,
    k: usize,
    kind: Option<NonDeterminismKind>,
    eoi: usize,
    floats: &P,
) -> (r: Result<(Query<Expr>, usize), ParserError>)
    requires
        k <= tokens@.len(),
        ready(tokens@, *floats),
    ensures
        match (r, time_query_at(lexed_view(tokens@), k as int, kind, eoi)) {
            (Ok((q, j)), Ok((x, m))) => describes_query(q, x, float_values(*floats)) && j == m && k < j
                <= tokens@.len(),
            (Err(e), Err(v)) => describes_error(e, v),
            _ => false,
        },
{
    proof {
        reveal(time_query_at);
    }
    match reward_query_parser(tokens, k, eoi, floats) {
        Err(e) => Err(e),
        Ok((Some(bound), reward, end)) => Ok((Query::TimeBound { non_determinism: kind, bound, reward }, end)),
        Ok((None, reward, end)) => Ok((Query::TimeValue { non_determinism: kind, reward }, end)),
    }
}

/// Reads a query at the start of the tokens; see [`query_at`].
pub fn query_parser<P: Fn(&str) -> u64>(tokens: &Vec<(Token, FullSpan)>, eoi: usize, floats: &P) -> (r: Result<
    (Query<Expr>, usize),
    ParserError,
>)
    requires
        ready(tokens@, *floats),
    ensures
        match (r, query_at(lexed_view(tokens@), eoi)) {
            (Ok((q, j)), Ok((x, m))) => describes_query(q, x, float_values(*floats)) && j == m && j <= tokens@.len(),
            (Err(e), Err(v)) => describes_error(e, v),
            _ => false,
        },
{
    let n = tokens.len();
    let first = if n > 0 {
        Some(&tokens[0].0)
    } else {
        None
    };
    let probability = match first {
        Some(Token::P) => true,
        Some(Token::PMax) => true,
        Some(Token::PMin) => true,
        _ => false,
    };
    let reward = match first {
        Some(Token::R) => true,
        Some(Token::RMax) => true,
        Some(Token::RMin) => true,
        _ => false,
    };
    let time = match first {
        Some(Token::TMax) => true,
        Some(Token::TMin) => true,
        _ => false,
    };
    let word_t = match first {
        Some(Token::T) => true,
        _ => false,
    };
    if probability && token_at_is(tokens, 1, &Token::Equal) {
        proof {
            reveal(probability_query_at);
        }
        let j = match expect_exec(tokens, 2, &Token::Questionmark, eoi) {
            Err(e) => {
                return Err(e);
            },
            Ok(p) => p,
        };
        let j2 = match expect_exec(tokens, j, &Token::LeftSqBracket, eoi) {
            Err(e) => {
                return Err(e);
            },
            Ok(p) => p,
        };
        let (path, m) = match path_formula_parser(tokens, j2, eoi, floats) {
            Err(e) => {
                return Err(e);
            },
            Ok(p) => p,
        };
        let end = match expect_exec(tokens, m, &Token::RightSqBracket, eoi) {
            Err(e) => {
                return Err(e);
            },
            Ok(p) => p,
        };
        let non_determinism = kind_of_token(&tokens[0].0);
        Ok((Query::ProbabilityValue { non_determinism, path }, end))
    } else if reward {
        proof {
            reveal(reward_query);
        }
        let (name, kind, j) = match reward_name_and_min_max(tokens, 0, eoi) {
            Err(e) => {
                return Err(e);
            },
            Ok(p) => p,
        };
        match reward_query_parser(tokens, j, eoi, floats) {
            Err(e) => Err(e),
            Ok((Some(bound), reward, end)) => Ok(
                (Query::RewardBound { non_determinism: kind, name, bound, reward }, end),
            ),
            Ok((None, reward, end)) => Ok((Query::RewardValue { non_determinism: kind, name, reward }, end)),
        }
    } else if time {
        let kind = kind_of_token(&tokens[0].0);
        time_query_parser(tokens, 1, kind, eoi, floats)
    } else if word_t {
        proof {
            reveal(word_t_query);
        }
        match expression_exec(tokens, 0, 0, eoi, floats) {
            Ok((x, j)) => Ok((Query::StateFormula(StateFormula::Expression(x)), j)),
            Err(_) => time_query_parser(tokens, 1, None, eoi, floats),
        }
    } else {
        proof {
            reveal(state_query);
        }
        match state_formula_parser(tokens, 0, eoi, floats) {
            Err(e) => Err(e),
            Ok((s, j)) => Ok((Query::StateFormula(s), j)),
        }
    }
}

/// What reading the query in the source text `s` gives, floating-point literals being read by
/// `fl`: if the text cannot be split into tokens, the errors say where; otherwise the query, or
/// the one error that says why the tokens are not a query.
pub open spec fn parsed_query(s: Seq<char>, fl: spec_fn(Seq<char>) -> u64, r: Result<Query<Expr>, Vec<ParserError>>) -> bool {
    match lex(s) {
        Err(_) => r matches Err(es) && describes_lex_failures(es@, lex_errors(s)),
        Ok(toks) => match whole_query(toks, input_end(s)) {
            Ok(x) => r matches Ok(q) && describes_query(q, x, fl),
            Err(v) => r matches Err(es) && es@.len() == 1 && describes_error(es@[0], v),
        },
    }
}

/// Reads the query in `source`, floating-point literals being read by `floats`; see
/// [`parsed_query`].
pub fn parse_unprocessed_query<P: Fn(&str) -> u64>(source: &str, floats: &P) -> (r: Result<Query<Expr>, Vec<ParserError>>)
    requires
        parses_floats(*floats),
        source_integers_fit(source@),
    ensures
        parsed_query(source@, float_values(*floats), r),
{
    let eoi = source.as_bytes().len();
    let tokens = match raw_lex(source) {
        Err(errors) => {
            let ghost es = errors@;
            let r = ParserError::from_lex_errors(errors);
            assert(es.map_values(|e: LexError| (e.span.spec_range(), e.found)) =~= lex_errors(source@));
            return Err(r);
        },
        Ok(t) => t,
    };
    let n = tokens.len();
    proof {
        lemma_lexed_tracked(source@);
    }
    let mut errors: Vec<ParserError> = Vec::new();
    let (q, j) = match query_parser(&tokens, eoi, floats) {
        Err(e) => {
            errors.push(e);
            return Err(errors);
        },
        Ok(p) => p,
    };
    if j < n {
        let expected = vec![Pattern::EndOfInput];
        assert(patterns_view(expected@) =~= seq![PatternValue::EndOfInput]);
        errors.push(expected_error(&tokens, j, eoi, expected));
        return Err(errors);
    }
    Ok(q)
}

} // verus!
