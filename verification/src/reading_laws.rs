//! Laws that tie what is read back to what was written: operators, bounds and domains.
use crate::attribute_parser::{token_is, TokensView};
use crate::declaration_parser::{domain_at, RangeSyntax};
use crate::display::{expression_text, parenthesised, Displayable};
use crate::expression_parser::{atom_at, binary_node, binary_op_of, describes_expr, describes_node, expression_at, syntax_kind, ExprSyntax};
use crate::expressions::{children, kind, precedence, Expression};
use crate::identifier::Identifier;
use crate::lexer::{operator_at, syntax_element_at};
use crate::model::ModelType;
use crate::program_parser::{describes_model_type, model_type_at};
use crate::properties::{BoundOperator, NonDeterminismKind};
use crate::property_parser::{bound_operator_at, kind_of};
use crate::spans::{FullSpan, Span};
use crate::token::{token_text, word_token, TokenValue};
use crate::variables::VariableRange;
use vstd::prelude::*;

verus! {

/// Reading keeps the operator: the node built for a binary operator token, printed, writes the
/// spelling of that very token between its two operands. (So `a <= b` is read as the
/// comparison `<=`, `a - b` as a subtraction, and so on for every binary operator.)
pub proof fn law_binary_operator_kept<Ctx>(
    level: int,
    t: TokenValue,
    a: ExprSyntax,
    b: ExprSyntax,
    s: Option<(usize, usize)>,
    r: Expression<Identifier<FullSpan>, FullSpan>,
    read_floats: spec_fn(Seq<char>) -> u64,
    surrounding: int,
    context: Ctx,
    floats: spec_fn(u64) -> Seq<char>,
)
    requires
        binary_op_of(level, t),
        describes_expr(r, binary_node(t, a, b, s), read_floats),
    ensures
        children(r).len() == 2,
        expression_text(r, surrounding, context, floats) == parenthesised(
            expression_text(children(r)[0], precedence(r) as int, context, floats) + token_text(t)
                + expression_text(children(r)[1], precedence(r) as int + 1, context, floats),
            surrounding,
            precedence(r) as int,
        ),
{
    assert(describes_node(r, binary_node(t, a, b, s), read_floats));
    assert(kind(r) == syntax_kind(binary_node(t, a, b, s)));
    reveal_strlit("=>");
    reveal_strlit("<=>");
    reveal_strlit("|");
    reveal_strlit("&");
    reveal_strlit("=");
    reveal_strlit("!=");
    reveal_strlit("<");
    reveal_strlit("<=");
    reveal_strlit(">");
    reveal_strlit(">=");
    reveal_strlit("+");
    reveal_strlit("-");
    reveal_strlit("*");
    reveal_strlit("/");
}

/// How PRISM writes a comparison of a bound.
pub open spec fn bound_operator_text(op: BoundOperator) -> Seq<char> {
    match op {
        BoundOperator::LessThan => "<"@,
        BoundOperator::LessOrEqual => "<="@,
        BoundOperator::GreaterThan => ">"@,
        BoundOperator::GreaterOrEqual => ">="@,
    }
}

/// Reading a bound keeps its comparison: a bound operator is read exactly from the four
/// comparison tokens, and the operator read is written as that token is.
pub proof fn law_bound_operator_kept(toks: TokensView, k: int)
    ensures
        bound_operator_at(toks, k) is Some <==> 0 <= k < toks.len() && (toks[k].0 is LessThan
            || toks[k].0 is LessOrEqual || toks[k].0 is GreaterThan || toks[k].0 is GreaterOrEqual),
        bound_operator_at(toks, k) matches Some(op) ==> bound_operator_text(op) == token_text(toks[k].0),
{
    reveal_strlit("<");
    reveal_strlit("<=");
    reveal_strlit(">");
    reveal_strlit(">=");
}

/// `min` is the expression that starts right after the `[` at `k`, a `..` follows it, `max` is
/// the expression after the `..`, and a `]` follows that just before `end`.
pub open spec fn bounds_written_in_order(
    toks: TokensView,
    k: int,
    eoi: usize,
    min: ExprSyntax,
    max: ExprSyntax,
    end: int,
) -> bool {
    &&& token_is(toks, k, TokenValue::LeftSqBracket)
    &&& match expression_at(toks, k + 1, 0, eoi) {
        Ok((x, j)) => x == min && token_is(toks, j, TokenValue::DotDot) && match expression_at(
            toks,
            j + 1,
            0,
            eoi,
        ) {
            Ok((y, m)) => y == max && token_is(toks, m, TokenValue::RightSqBracket) && end == m + 1,
            Err(_) => false,
        },
        Err(_) => false,
    }
}

/// In a bounded domain `[a..b]` the minimum is the expression written first, right after the
/// `[`, and the maximum the expression written after the `..`, up to the `]` that ends the
/// domain.
pub proof fn law_domain_bounds_in_order(toks: TokensView, k: int, eoi: usize)
    ensures
        domain_at(toks, k, eoi) matches Ok((RangeSyntax::BoundedInt(min, max, _), end))
            ==> bounds_written_in_order(toks, k, eoi, min, max, end),
{
}

/// The kind of a read domain and that of a domain are the same.
pub open spec fn same_domain_kind<S: Span, E>(x: RangeSyntax, r: VariableRange<S, E>) -> bool {
    match (x, r) {
        (RangeSyntax::BoundedInt(..), VariableRange::BoundedInt { .. }) => true,
        (RangeSyntax::UnboundedInt(..), VariableRange::UnboundedInt { .. }) => true,
        (RangeSyntax::Boolean(..), VariableRange::Boolean { .. }) => true,
        (RangeSyntax::Float(..), VariableRange::Float { .. }) => true,
        _ => false,
    }
}

/// A printed domain reads back as the same kind of domain: where the keyword written for an
/// unbounded domain (`int`, `bool` or `double`) stands, the domain read there is of that kind.
pub proof fn law_domain_text_reads_back<S: Span, E: Displayable<Ctx>, Ctx>(
    r: VariableRange<S, E>,
    context: Ctx,
    floats: spec_fn(u64) -> Seq<char>,
    toks: TokensView,
    k: int,
    eoi: usize,
)
    requires
        !(r is BoundedInt),
        0 <= k < toks.len(),
        toks[k].0 is Int || toks[k].0 is Bool || toks[k].0 is Double,
        token_text(toks[k].0) == r.display_text(&context, floats),
    ensures
        domain_at(toks, k, eoi) matches Ok((x, j)) && same_domain_kind(x, r) && j == k + 1,
{
    reveal_strlit("int");
    reveal_strlit("bool");
    reveal_strlit("double");
    assert("int"@.len() == 3 && "bool"@.len() == 4 && "double"@.len() == 6);
    assert("int"@[0] != "bool"@[0]);
}

/// Distinct kinds of domain are printed differently.
pub proof fn law_domain_texts_distinct<S: Span, E: Displayable<Ctx>, Ctx>(
    r1: VariableRange<S, E>,
    r2: VariableRange<S, E>,
    context: Ctx,
    floats: spec_fn(u64) -> Seq<char>,
)
    requires
        !(r1 is BoundedInt && r2 is BoundedInt),
        !same_kind_of_range(r1, r2),
    ensures
        r1.display_text(&context, floats) != r2.display_text(&context, floats),
{
    reveal_strlit("int");
    reveal_strlit("bool");
    reveal_strlit("double");
    reveal_strlit("[");
    assert("int"@[0] != "bool"@[0]);
    assert("int"@[0] != "double"@[0]);
    assert("bool"@[0] != "double"@[0]);
    if r1 is BoundedInt {
        assert(r1.display_text(&context, floats)[0] == '[');
    }
    if r2 is BoundedInt {
        assert(r2.display_text(&context, floats)[0] == '[');
    }
}

/// The two domains are of the same kind.
pub open spec fn same_kind_of_range<S: Span, E>(r1: VariableRange<S, E>, r2: VariableRange<S, E>) -> bool {
    match (r1, r2) {
        (VariableRange::BoundedInt { .. }, VariableRange::BoundedInt { .. }) => true,
        (VariableRange::UnboundedInt { .. }, VariableRange::UnboundedInt { .. }) => true,
        (VariableRange::Boolean { .. }, VariableRange::Boolean { .. }) => true,
        (VariableRange::Float { .. }, VariableRange::Float { .. }) => true,
        _ => false,
    }
}


/// Reading the model type keeps it: the model type read at `k` is written as the keyword that
/// stands there.
pub proof fn law_model_type_kept<Ctx>(
    toks: TokensView,
    k: int,
    eoi: usize,
    t: ModelType<FullSpan>,
    context: Ctx,
    floats: spec_fn(u64) -> Seq<char>,
)
    requires
        model_type_at(toks, k, eoi) matches Ok((tok, sp)) && describes_model_type(t, tok, sp),
    ensures
        0 <= k < toks.len(),
        t.display_text(&context, floats) == token_text(toks[k].0),
{
}

/// `s` ends with `e`.
pub open spec fn ends_with(s: Seq<char>, e: Seq<char>) -> bool {
    s.len() >= e.len() && s.subrange(s.len() - e.len(), s.len() as int) == e
}

/// The words that name a quantity to be computed (`P`, `R`, `T`, `LRA`, each also with `max`
/// or `min`), and the words `max` and `min`.
pub open spec fn quantity_word(t: TokenValue) -> bool {
    ||| t is P || t is PMax || t is PMin
    ||| t is R || t is RMax || t is RMin
    ||| t is T || t is TMax || t is TMin
    ||| t is LRA || t is LRAMax || t is LRAMin
    ||| t is Max || t is Min
}

/// The way non-determinism is resolved is read from the word's spelling: a word that ends in
/// `max` maximises, one that ends in `min` minimises, and the other words leave it open.
pub proof fn law_kind_follows_spelling(t: TokenValue)
    ensures
        kind_of(t) == Some(NonDeterminismKind::Maximise) ==> ends_with(token_text(t), "max"@),
        kind_of(t) == Some(NonDeterminismKind::Minimise) ==> ends_with(token_text(t), "min"@),
        quantity_word(t) ==> {
            &&& (kind_of(t) == Some(NonDeterminismKind::Maximise) <==> ends_with(token_text(t), "max"@))
            &&& (kind_of(t) == Some(NonDeterminismKind::Minimise) <==> ends_with(token_text(t), "min"@))
        },
{
    reveal_strlit("max");
    reveal_strlit("min");
    reveal_strlit("P");
    reveal_strlit("Pmax");
    reveal_strlit("Pmin");
    reveal_strlit("R");
    reveal_strlit("Rmax");
    reveal_strlit("Rmin");
    reveal_strlit("T");
    reveal_strlit("Tmax");
    reveal_strlit("Tmin");
    reveal_strlit("LRA");
    reveal_strlit("LRAmax");
    reveal_strlit("LRAmin");
    let s = token_text(t);
    if quantity_word(t) {
        if s.len() >= 3 {
            let tail = s.subrange(s.len() - 3, s.len() as int);
            assert(tail.len() == 3);
            if t is PMax || t is RMax || t is TMax || t is LRAMax || t is Max {
                assert(tail =~= "max"@);
                assert(tail[1] != "min"@[1]);
            } else if t is PMin || t is RMin || t is TMin || t is LRAMin || t is Min {
                assert(tail =~= "min"@);
                assert(tail[1] != "max"@[1]);
            } else {
                assert(t is LRA);
                assert(tail[0] != "max"@[0]);
                assert(tail[0] != "min"@[0]);
            }
        }
    } else {
        assert(kind_of(t) is None);
    }
}


/// Reading keeps a prefix operator: where `!` (at the level of negations) or `-` (at the level
/// of signs) starts an expression, the expression read there is printed starting with that
/// very operator.
pub proof fn law_prefix_operator_kept<Ctx>(
    toks: TokensView,
    k: int,
    level: int,
    eoi: usize,
    r: Expression<Identifier<FullSpan>, FullSpan>,
    read_floats: spec_fn(Seq<char>) -> u64,
    context: Ctx,
    floats: spec_fn(u64) -> Seq<char>,
)
    requires
        level == 5 && token_is(toks, k, TokenValue::Negation) || level == 10 && token_is(toks, k, TokenValue::Minus),
        expression_at(toks, k, level, eoi) matches Ok((x, _)) && describes_expr(r, x, read_floats),
    ensures
        expression_text(r, precedence(r) as int, context, floats).take(1) == token_text(toks[k].0),
{
    let x = expression_at(toks, k, level, eoi)->Ok_0.0;
    assert(describes_node(r, x, read_floats));
    reveal_strlit("!");
    reveal_strlit("-");
    let p = precedence(r) as int;
    if level == 5 {
        assert(r is Negation);
        let a = children(r)[0];
        assert("!"@ + expression_text(a, p + 1, context, floats) == expression_text(r, p, context, floats));
        assert(("!"@ + expression_text(a, p + 1, context, floats)).take(1) =~= "!"@);
    } else {
        assert(r is Minus);
        let a = children(r)[0];
        assert("-"@ + expression_text(a, p, context, floats) == expression_text(r, p, context, floats));
        assert(("-"@ + expression_text(a, p, context, floats)).take(1) =~= "-"@);
    }
}

/// Reading keeps a truth value: the expression read from the word `true` or `false` is printed
/// as that word.
pub proof fn law_truth_value_kept<Ctx>(
    toks: TokensView,
    k: int,
    eoi: usize,
    r: Expression<Identifier<FullSpan>, FullSpan>,
    read_floats: spec_fn(Seq<char>) -> u64,
    context: Ctx,
    floats: spec_fn(u64) -> Seq<char>,
)
    requires
        token_is(toks, k, TokenValue::True) || token_is(toks, k, TokenValue::False),
        atom_at(toks, k, eoi) matches Ok((x, _)) && describes_expr(r, x, read_floats),
    ensures
        expression_text(r, precedence(r) as int, context, floats) == token_text(toks[k].0),
{
    let x = atom_at(toks, k, eoi)->Ok_0.0;
    assert(describes_node(r, x, read_floats));
    assert(r is Bool);
}


/// Reading keeps the spelling of symbols: the operator or punctuation read at `i` is the token
/// whose spelling is exactly the characters it covers (the assignment mark `'=`, which may hold
/// white space between its two characters, aside).
pub proof fn law_symbols_spelled_as_read(s: Seq<char>, i: int)
    ensures
        operator_at(s, i) matches Some((t, e)) ==> s.subrange(i, e) == token_text(t),
        syntax_element_at(s, i) matches Some((t, e)) ==> (t is AssignedTo || s.subrange(i, e) == token_text(t)),
{
    reveal_strlit("[");
    reveal_strlit("]");
    reveal_strlit("(");
    reveal_strlit(")");
    reveal_strlit("{");
    reveal_strlit("}");
    reveal_strlit("->");
    reveal_strlit(":");
    reveal_strlit("..");
    reveal_strlit(";");
    reveal_strlit("\"");
    reveal_strlit("-");
    reveal_strlit("*");
    reveal_strlit("/");
    reveal_strlit("%");
    reveal_strlit("+");
    reveal_strlit("=>");
    reveal_strlit("<=>");
    reveal_strlit("<=");
    reveal_strlit("<");
    reveal_strlit(">=");
    reveal_strlit(">");
    reveal_strlit("=");
    reveal_strlit("!=");
    reveal_strlit("!");
    reveal_strlit("&");
    reveal_strlit("|");
    reveal_strlit("?");
    reveal_strlit(",");
    if let Some((t, e)) = operator_at(s, i) {
        assert(s.subrange(i, e) =~= token_text(t));
    }
    if let Some((t, e)) = syntax_element_at(s, i) {
        if !(t is AssignedTo) {
            assert(s.subrange(i, e) =~= token_text(t));
        }
    }
}


/// The letter `c` in lower case.
pub open spec fn lower_char(c: char) -> char {
    if 'A' <= c && c <= 'Z' {
        ((c as u32) + 32) as char
    } else {
        c
    }
}

/// The text `s` in lower case.
pub open spec fn lower(s: Seq<char>) -> Seq<char> {
    s.map_values(|c: char| lower_char(c))
}

/// The words that are read as keywords or literals rather than names.
pub open spec fn keyword_token(t: TokenValue) -> bool {
    t is Bool || t is Const || t is Ctmc || t is Cumulative || t is Double || t is Dtmc || t is EndInit || t is EndModule || t is EndRewards || t is False || t is Finally || t is Formula || t is Generally || t is Global || t is Init || t is Instantaneous || t is Int || t is LRA || t is LRAMax || t is LRAMin || t is Label || t is Max || t is Mdp || t is Min || t is Module || t is P || t is PMax || t is PMin || t is Pomdp || t is Popta || t is Pta || t is R || t is RMax || t is RMin || t is Rewards || t is T || t is TMax || t is TMin || t is True
}

/// Reading a word keeps what it says: a word read as a keyword spells that keyword (up to the
/// case of its letters, as in `PMax` for `Pmax`), and any other word is read as the name it
/// spells.
pub proof fn law_words_read_as_spelled(w: Seq<char>)
    ensures
        word_token(w) matches TokenValue::Identifier(x) ==> x == w,
        !(word_token(w) is Identifier) ==> keyword_token(word_token(w)) && lower(w) == lower(token_text(word_token(w))),
{
    if w == "PMax"@ {
        reveal_strlit("PMax");
        reveal_strlit("Pmax");
        assert(lower(w) =~= lower("Pmax"@));
    }
    if w == "PMin"@ {
        reveal_strlit("PMin");
        reveal_strlit("Pmin");
        assert(lower(w) =~= lower("Pmin"@));
    }
    if w == "RMax"@ {
        reveal_strlit("RMax");
        reveal_strlit("Rmax");
        assert(lower(w) =~= lower("Rmax"@));
    }
    if w == "RMin"@ {
        reveal_strlit("RMin");
        reveal_strlit("Rmin");
        assert(lower(w) =~= lower("Rmin"@));
    }
    if w == "TMax"@ {
        reveal_strlit("TMax");
        reveal_strlit("Tmax");
        assert(lower(w) =~= lower("Tmax"@));
    }
    if w == "TMin"@ {
        reveal_strlit("TMin");
        reveal_strlit("Tmin");
        assert(lower(w) =~= lower("Tmin"@));
    }
    if w == "LRAMax"@ {
        reveal_strlit("LRAMax");
        reveal_strlit("LRAmax");
        assert(lower(w) =~= lower("LRAmax"@));
    }
    if w == "LRAMin"@ {
        reveal_strlit("LRAMin");
        reveal_strlit("LRAmin");
        assert(lower(w) =~= lower("LRAmin"@));
    }
    if w == "Max"@ {
        reveal_strlit("Max");
        reveal_strlit("max");
        assert(lower(w) =~= lower("max"@));
    }
    if w == "Min"@ {
        reveal_strlit("Min");
        reveal_strlit("min");
        assert(lower(w) =~= lower("min"@));
    }
}


} // verus!
