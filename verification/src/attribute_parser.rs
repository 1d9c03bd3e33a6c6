//! Reads attributes from source text: a single attribute `key` or `key=value`, or a block
//! `{a, b=c, ...}` of them.
//!
//! The value of an attribute is every token up to the next `,` or `}`; its text is rebuilt from
//! the tokens, with one space for every byte between two consecutive tokens.
use crate::attributes::{attribute_keys, Attribute, Attributes};
use crate::errors::ElementKind;
use crate::identifier::{name_error, Identifier};
use crate::lexer::{lex, lexed_view, raw_lex};
use crate::names::{
    duplicate_error, first_duplicate_from, lemma_duplicate_error_distinct, lemma_duplicate_indices,
    names_distinct,
};
use crate::parse_error::{help_for_expected, 
    describes_error, patterns_view, ParserError, ParserErrorValue, Pattern, PatternValue,
    ValidationError,
};
use crate::spans::{range_end, range_start, FullSpan, Span};
use crate::token::{token_text, Token, TokenValue};
use vstd::prelude::*;
use vstd::string::StringExecFns;
use vstd::utf8::encode_utf8;

verus! {

/// Lexed tokens with their spans, as mathematical values.
pub type TokensView = Seq<(TokenValue, Option<(usize, usize)>)>;

/// Every token has a tracked span.
pub open spec fn spans_tracked(toks: TokensView) -> bool {
    forall|k: int| 0 <= k < toks.len() ==> (#[trigger] toks[k]).1 is Some
}

/// Where the token at `k` starts, or `eoi` past the last token.
pub open spec fn start_at(toks: TokensView, k: int, eoi: usize) -> usize {
    if 0 <= k < toks.len() {
        range_start(toks[k].1)
    } else {
        eoi
    }
}

/// The span of the token at `k`, or the empty span at `eoi` past the last token.
pub open spec fn span_at(toks: TokensView, k: int, eoi: usize) -> Option<(usize, usize)> {
    if 0 <= k < toks.len() {
        toks[k].1
    } else {
        Some((eoi, eoi))
    }
}

/// The token at `k`, or `None` past the last token.
pub open spec fn found_at(toks: TokensView, k: int) -> Option<TokenValue> {
    if 0 <= k < toks.len() {
        Some(toks[k].0)
    } else {
        None
    }
}

/// Whether the token at `k` is `t`.
pub open spec fn token_is(toks: TokensView, k: int, t: TokenValue) -> bool {
    0 <= k < toks.len() && toks[k].0 == t
}

/// The span of the tokens `a..b`: from the start of the first to the end of the last, or the
/// empty span at the start of token `a` when there are none.
pub open spec fn range_span(toks: TokensView, a: int, b: int, eoi: usize) -> Option<(usize, usize)> {
    if a < b {
        Some((start_at(toks, a, eoi), range_end(toks[b - 1].1)))
    } else {
        Some((start_at(toks, a, eoi), start_at(toks, a, eoi)))
    }
}

/// The key that the token at `k` can stand for: an identifier, or the word `T`.
pub open spec fn key_at(toks: TokensView, k: int) -> Option<Seq<char>> {
    if 0 <= k < toks.len() {
        match toks[k].0 {
            TokenValue::Identifier(name) => Some(name),
            TokenValue::T => Some("T"@),
            _ => None,
        }
    } else {
        None
    }
}

/// Whether a token ends the value of an attribute.
pub open spec fn ends_value(t: TokenValue) -> bool {
    t is Comma || t is RightCurlyBracket
}

/// The index of the first token from `k` on that ends a value, or the number of tokens.
pub open spec fn value_end(toks: TokensView, k: int) -> int
    decreases toks.len() - k,
{
    if 0 <= k < toks.len() && !ends_value(toks[k].0) {
        value_end(toks, k + 1)
    } else {
        k
    }
}

/// `n` spaces (none when `n` is not positive).
pub open spec fn spaces(n: int) -> Seq<char> {
    Seq::new(if n > 0 { n as nat } else { 0 }, |i: int| ' ')
}

/// The text of the tokens `a..b`: their texts, with one space for every byte between the end of
/// one token and the start of the next.
pub open spec fn value_text(toks: TokensView, a: int, b: int) -> Seq<char>
    decreases b - a,
{
    if b <= a {
        seq![]
    } else if b == a + 1 {
        token_text(toks[a].0)
    } else {
        value_text(toks, a, b - 1) + spaces(
            range_start(toks[b - 1].1) - range_end(toks[b - 2].1),
        ) + token_text(toks[b - 1].0)
    }
}

/// An attribute as read from the tokens.
pub struct AttributeSyntax {
    /// The key.
    pub key: Seq<char>,
    /// The span of the key.
    pub key_span: Option<(usize, usize)>,
    /// The span of the whole attribute.
    pub span: Option<(usize, usize)>,
    /// The text and span of the value, if there is one.
    pub value: Option<(Seq<char>, Option<(usize, usize)>)>,
}

/// Whether the attribute `a` is the one that `x` describes.
pub open spec fn describes_attribute(a: Attribute<FullSpan>, x: AttributeSyntax) -> bool {
    &&& a.key.name@ == x.key
    &&& a.key.span.spec_range() == x.key_span
    &&& a.span.spec_range() == x.span
    &&& match (a.value, x.value) {
        (Some(v), Some((text, span))) => v.value@ == text && v.span.spec_range() == span,
        (None, None) => true,
        _ => false,
    }
}

/// The pattern that stands for an identifier.
pub open spec fn identifier_pattern() -> PatternValue {
    PatternValue::Label("identifier"@)
}

/// Reads the attribute that starts at token `k`: a key, then, if an `=` follows, the value up to
/// the next `,` or `}`. Gives the attribute and the index of the token after it.
pub open spec fn attribute_at(toks: TokensView, k: int, eoi: usize) -> Result<
    (AttributeSyntax, int),
    ParserErrorValue,
> {
    match key_at(toks, k) {
        None => Err(
            ParserErrorValue::ExpectedFound {
                span: span_at(toks, k, eoi),
                expected: seq![identifier_pattern()],
                found: found_at(toks, k),
            },
        ),
        Some(name) => if name_error(name, false) is Some {
            Err(ParserErrorValue::InvalidIdentifierName { span: toks[k].1, name })
        } else if token_is(toks, k + 1, TokenValue::Equal) {
            let e = value_end(toks, k + 2);
            let end = if e > k + 2 {
                range_end(toks[e - 1].1)
            } else {
                range_end(toks[k + 1].1)
            };
            Ok(
                (
                    AttributeSyntax {
                        key: name,
                        key_span: toks[k].1,
                        span: Some((start_at(toks, k, eoi), end)),
                        value: Some((value_text(toks, k + 2, e), range_span(toks, k + 2, e, eoi))),
                    },
                    e,
                ),
            )
        } else {
            Ok((AttributeSyntax { key: name, key_span: toks[k].1, span: toks[k].1, value: None }, k + 1))
        },
    }
}

/// What may follow an attribute that is not followed by `,` or `}`.
pub open spec fn after_attribute(x: AttributeSyntax) -> Seq<PatternValue> {
    if x.value is None {
        seq![
            PatternValue::Token(TokenValue::Equal),
            PatternValue::Token(TokenValue::Comma),
            PatternValue::Token(TokenValue::RightCurlyBracket),
        ]
    } else {
        seq![PatternValue::Token(TokenValue::Comma), PatternValue::Token(TokenValue::RightCurlyBracket)]
    }
}

/// Reads the attributes of a block from token `k` up to its closing `}`, separated by `,`.
/// `first` says whether `k` directly follows the opening `{` (where the block may end at once).
/// Gives the attributes and the index of the closing `}`.
pub open spec fn attribute_items(toks: TokensView, k: int, eoi: usize, first: bool) -> Result<
    (Seq<AttributeSyntax>, int),
    ParserErrorValue,
>
    decreases toks.len() - k,
{
    if first && token_is(toks, k, TokenValue::RightCurlyBracket) {
        Ok((seq![], k))
    } else if key_at(toks, k) is None {
        Err(
            ParserErrorValue::ExpectedFound {
                span: span_at(toks, k, eoi),
                expected: if first {
                    seq![identifier_pattern(), PatternValue::Token(TokenValue::RightCurlyBracket)]
                } else {
                    seq![identifier_pattern()]
                },
                found: found_at(toks, k),
            },
        )
    } else {
        match attribute_at(toks, k, eoi) {
            Err(e) => Err(e),
            Ok((x, j)) => {
                proof {
                    lemma_attribute_at_advances(toks, k, eoi);
                }
                if token_is(toks, j, TokenValue::Comma) {
                    match attribute_items(toks, j + 1, eoi, false) {
                        Ok((rest, c)) => Ok((seq![x] + rest, c)),
                        Err(e) => Err(e),
                    }
                } else if token_is(toks, j, TokenValue::RightCurlyBracket) {
                    Ok((seq![x], j))
                } else {
                    Err(
                        ParserErrorValue::ExpectedFound {
                            span: span_at(toks, j, eoi),
                            expected: after_attribute(x),
                            found: found_at(toks, j),
                        },
                    )
                }
            },
        }
    }
}

/// Reads a whole input that holds one attribute. Gives the attribute and the span of the
/// input's tokens.
pub open spec fn single_attribute(toks: TokensView, eoi: usize) -> Result<
    (AttributeSyntax, Option<(usize, usize)>),
    ParserErrorValue,
> {
    match attribute_at(toks, 0, eoi) {
        Err(e) => Err(e),
        Ok((x, j)) => if j < toks.len() {
            Err(
                ParserErrorValue::ExpectedFound {
                    span: toks[j].1,
                    expected: if x.value is None {
                        seq![PatternValue::Token(TokenValue::Equal), PatternValue::EndOfInput]
                    } else {
                        seq![PatternValue::EndOfInput]
                    },
                    found: Some(toks[j].0),
                },
            )
        } else {
            Ok((x, x.span))
        },
    }
}

/// Reads a whole input that holds nothing or one block `{...}` of attributes. Gives the
/// attributes and the span of the input's tokens (the empty span at `eoi` when there are
/// none).
pub open spec fn attribute_block(toks: TokensView, eoi: usize) -> Result<
    (Seq<AttributeSyntax>, Option<(usize, usize)>),
    ParserErrorValue,
> {
    if toks.len() == 0 {
        Ok((seq![], Some((eoi, eoi))))
    } else if !token_is(toks, 0, TokenValue::LeftCurlyBracket) {
        Err(
            ParserErrorValue::ExpectedFound {
                span: toks[0].1,
                expected: seq![
                    PatternValue::Token(TokenValue::LeftCurlyBracket),
                    PatternValue::EndOfInput,
                ],
                found: Some(toks[0].0),
            },
        )
    } else {
        match attribute_items(toks, 1, eoi, true) {
            Err(e) => Err(e),
            Ok((items, c)) => if c + 1 < toks.len() {
                Err(
                    ParserErrorValue::ExpectedFound {
                        span: toks[c + 1].1,
                        expected: seq![PatternValue::EndOfInput],
                        found: Some(toks[c + 1].0),
                    },
                )
            } else {
                Ok((items, Some((start_at(toks, 0, eoi), range_end(toks[c].1)))))
            },
        }
    }
}

/// The keys of read attributes.
pub open spec fn syntax_keys(items: Seq<AttributeSyntax>) -> Seq<Seq<char>> {
    items.map_values(|x: AttributeSyntax| x.key)
}

/// The outcome of reading the attributes of a block: the attributes if their keys are
/// distinct, otherwise the error for the first attribute whose key is taken.
pub open spec fn checked_block(
    block: Result<(Seq<AttributeSyntax>, Option<(usize, usize)>), ParserErrorValue>,
) -> Result<(Seq<AttributeSyntax>, Option<(usize, usize)>), ParserErrorValue> {
    match block {
        Err(e) => Err(e),
        Ok((items, span)) => if names_distinct(syntax_keys(items)) {
            Ok((items, span))
        } else {
            let keys = syntax_keys(items);
            Err(
                ParserErrorValue::DuplicateElement {
                    previous_occurrence: items[duplicate_error(keys)->0 as int].span,
                    new_definition: items[first_duplicate_from(keys, 0)->0].span,
                    kind: ElementKind::Attribute,
                },
            )
        },
    }
}

/// The number of bytes of the UTF-8 encoding of `s`: the end of the input.
pub open spec fn input_end(s: Seq<char>) -> usize {
    encode_utf8(s).len() as usize
}

proof fn lemma_value_end_bounds(toks: TokensView, k: int)
    requires
        0 <= k <= toks.len(),
    ensures
        k <= value_end(toks, k) <= toks.len(),
        value_end(toks, k) < toks.len() ==> ends_value(toks[value_end(toks, k)].0),
        forall|i: int| k <= i < value_end(toks, k) ==> !ends_value(#[trigger] toks[i].0),
    decreases toks.len() - k,
{
    if k < toks.len() && !ends_value(toks[k].0) {
        lemma_value_end_bounds(toks, k + 1);
    }
}

/// A block's attributes end at a closing `}`.
pub proof fn lemma_attribute_items_end(toks: TokensView, k: int, eoi: usize, first: bool)
    ensures
        attribute_items(toks, k, eoi, first) matches Ok((x, c)) ==> token_is(
            toks,
            c,
            TokenValue::RightCurlyBracket,
        ),
    decreases toks.len() - k,
{
    if !(first && token_is(toks, k, TokenValue::RightCurlyBracket)) && key_at(toks, k) is Some {
        lemma_attribute_at_advances(toks, k, eoi);
        if let Ok((x, j)) = attribute_at(toks, k, eoi) {
            if token_is(toks, j, TokenValue::Comma) {
                lemma_attribute_items_end(toks, j + 1, eoi, false);
            }
        }
    }
}

/// An attribute ends after the token where it starts.
pub proof fn lemma_attribute_at_advances(toks: TokensView, k: int, eoi: usize)
    requires
        0 <= k <= toks.len(),
    ensures
        attribute_at(toks, k, eoi) matches Ok((x, j)) ==> k < j <= toks.len(),
{
    if k + 2 <= toks.len() {
        lemma_value_end_bounds(toks, k + 2);
    }
}

/// Combines attributes already read with the outcome of reading the rest of a block.
pub open spec fn prepend_items(
    done: Seq<AttributeSyntax>,
    rest: Result<(Seq<AttributeSyntax>, int), ParserErrorValue>,
) -> Result<(Seq<AttributeSyntax>, int), ParserErrorValue> {
    match rest {
        Ok((items, c)) => Ok((done + items, c)),
        Err(e) => Err(e),
    }
}

/// Whether every attribute of `a` is the one that the entry of `x` at the same index describes.
pub open spec fn describes_attributes(a: Seq<Attribute<FullSpan>>, x: Seq<AttributeSyntax>) -> bool {
    &&& a.len() == x.len()
    &&& forall|i: int| 0 <= i < a.len() ==> describes_attribute(#[trigger] a[i], x[i])
}

fn span_of(tokens: &Vec<(Token, FullSpan)>, k: usize, eoi: usize) -> (r: FullSpan)
    ensures
        r.spec_range() == span_at(lexed_view(tokens@), k as int, eoi),
{
    if k < tokens.len() {
        tokens[k].1
    } else {
        FullSpan::from_range(eoi..eoi)
    }
}

fn found_token(tokens: &Vec<(Token, FullSpan)>, k: usize) -> (r: Option<Token>)
    ensures
        match (r, found_at(lexed_view(tokens@), k as int)) {
            (Some(t), Some(v)) => t@ == v,
            (None, None) => true,
            _ => false,
        },
{
    if k < tokens.len() {
        Some(tokens[k].0.duplicate())
    } else {
        None
    }
}

fn is_comma(tokens: &Vec<(Token, FullSpan)>, k: usize) -> (r: bool)
    ensures
        r == token_is(lexed_view(tokens@), k as int, TokenValue::Comma),
{
    k < tokens.len() && match &tokens[k].0 {
        Token::Comma => true,
        _ => false,
    }
}

fn is_right_curly(tokens: &Vec<(Token, FullSpan)>, k: usize) -> (r: bool)
    ensures
        r == token_is(lexed_view(tokens@), k as int, TokenValue::RightCurlyBracket),
{
    k < tokens.len() && match &tokens[k].0 {
        Token::RightCurlyBracket => true,
        _ => false,
    }
}

fn is_left_curly(tokens: &Vec<(Token, FullSpan)>, k: usize) -> (r: bool)
    ensures
        r == token_is(lexed_view(tokens@), k as int, TokenValue::LeftCurlyBracket),
{
    k < tokens.len() && match &tokens[k].0 {
        Token::LeftCurlyBracket => true,
        _ => false,
    }
}

fn is_equal(tokens: &Vec<(Token, FullSpan)>, k: usize) -> (r: bool)
    ensures
        r == token_is(lexed_view(tokens@), k as int, TokenValue::Equal),
{
    k < tokens.len() && match &tokens[k].0 {
        Token::Equal => true,
        _ => false,
    }
}

fn key_exec(tokens: &Vec<(Token, FullSpan)>, k: usize) -> (r: Option<String>)
    ensures
        match (r, key_at(lexed_view(tokens@), k as int)) {
            (Some(n), Some(m)) => n@ == m,
            (None, None) => true,
            _ => false,
        },
{
    if k < tokens.len() {
        match &tokens[k].0 {
            Token::Identifier(name) => Some(name.clone()),
            Token::T => Some(String::from_str("T")),
            _ => None,
        }
    } else {
        None
    }
}

fn value_end_exec(tokens: &Vec<(Token, FullSpan)>, k: usize) -> (r: usize)
    requires
        k <= tokens@.len(),
    ensures
        r == value_end(lexed_view(tokens@), k as int),
        k <= r <= tokens@.len(),
{
    let ghost toks = lexed_view(tokens@);
    let mut j = k;
    while j < tokens.len() && !is_comma(tokens, j) && !is_right_curly(tokens, j)
        invariant
            k <= j <= tokens@.len(),
            toks == lexed_view(tokens@),
            value_end(toks, j as int) == value_end(toks, k as int),
        decreases tokens@.len() - j,
    {
        j = j + 1;
    }
    j
}

fn start_of(tokens: &Vec<(Token, FullSpan)>, k: usize) -> (r: usize)
    requires
        k < tokens@.len(),
        spans_tracked(lexed_view(tokens@)),
    ensures
        r == range_start(lexed_view(tokens@)[k as int].1),
{
    assert(lexed_view(tokens@)[k as int].1 is Some);
    tokens[k].1.start().unwrap()
}

fn end_of(tokens: &Vec<(Token, FullSpan)>, k: usize) -> (r: usize)
    requires
        k < tokens@.len(),
        spans_tracked(lexed_view(tokens@)),
    ensures
        r == range_end(lexed_view(tokens@)[k as int].1),
{
    assert(lexed_view(tokens@)[k as int].1 is Some);
    tokens[k].1.end().unwrap()
}

fn value_text_exec(tokens: &Vec<(Token, FullSpan)>, a: usize, b: usize) -> (r: String)
    requires
        a <= b <= tokens@.len(),
        spans_tracked(lexed_view(tokens@)),
    ensures
        r@ == value_text(lexed_view(tokens@), a as int, b as int),
{
    let ghost toks = lexed_view(tokens@);
    let mut out = String::new();
    let mut k = a;
    proof {
        reveal_strlit(" ");
    }
    while k < b
        invariant
            a <= k <= b <= tokens@.len(),
            toks == lexed_view(tokens@),
            spans_tracked(toks),
            out@ == value_text(toks, a as int, k as int),
            " "@ == seq![' '],
        decreases b - k,
    {
        if k > a {
            let prev_end = end_of(tokens, k - 1);
            let start = start_of(tokens, k);
            let mut g = prev_end;
            let ghost before = out@;
            while g < start
                invariant
                    prev_end <= g <= start || (start <= prev_end && g == prev_end),
                    out@ == before + spaces(g - prev_end),
                    " "@ == seq![' '],
                decreases start - g,
            {
                out.append(" ");
                assert(spaces(g - prev_end) + seq![' '] =~= spaces(g + 1 - prev_end));
                g = g + 1;
            }
            assert(spaces(g - prev_end) =~= spaces(start - prev_end));
        }
        let ghost before = out@;
        tokens[k].0.append_text(&mut out);
        proof {
            if k == a {
                assert(out@ =~= value_text(toks, a as int, k + 1));
            } else {
                assert(out@ =~= value_text(toks, a as int, k + 1));
            }
        }
        k = k + 1;
    }
    out
}

fn identifier_label() -> (r: Pattern)
    ensures
        r@ == identifier_pattern(),
{
    Pattern::Label(String::from_str("identifier"))
}

/// Reads the attribute that starts at token `k`; see [`attribute_at`].
fn attribute_exec(tokens: &Vec<(Token, FullSpan)>, k: usize, eoi: usize) -> (r: Result<
    (Attribute<FullSpan>, usize),
    ParserError,
>)
    requires
        tokens@.len() <= usize::MAX,
        k <= tokens@.len(),
        spans_tracked(lexed_view(tokens@)),
    ensures
        match (r, attribute_at(lexed_view(tokens@), k as int, eoi)) {
            (Ok((a, j)), Ok((x, m))) => describes_attribute(a, x) && j == m,
            (Err(e), Err(v)) => describes_error(e, v),
            _ => false,
        },
{
    let ghost toks = lexed_view(tokens@);
    let name = match key_exec(tokens, k) {
        None => {
            let expected = vec![identifier_label()];
            assert(patterns_view(expected@) =~= seq![identifier_pattern()]);
            return Err(
                ParserError::ExpectedFound {
                    help: help_for_expected(&expected),
                    span: span_of(tokens, k, eoi),
                    expected,
                    found: found_token(tokens, k),
                },
            );
        },
        Some(n) => n,
    };
    let key_span = tokens[k].1;
    let key = match Identifier::new_spanned(name.as_str(), key_span) {
        Err(reason) => {
            return Err(
                ParserError::Validation(
                    ValidationError::InvalidIdentifierName { span: key_span, reason },
                ),
            );
        },
        Ok(id) => id,
    };
    if is_equal(tokens, k + 1) {
        let e = value_end_exec(tokens, k + 2);
        let text = value_text_exec(tokens, k + 2, e);
        let start = start_of(tokens, k);
        let value_span = if e > k + 2 {
            FullSpan::from_range(start_of(tokens, k + 2)..end_of(tokens, e - 1))
        } else if e < tokens.len() {
            let s = start_of(tokens, e);
            FullSpan::from_range(s..s)
        } else {
            FullSpan::from_range(eoi..eoi)
        };
        let end = if e > k + 2 {
            end_of(tokens, e - 1)
        } else {
            end_of(tokens, k + 1)
        };
        Ok((Attribute::key_value_spanned(key, text, FullSpan::from_range(start..end), value_span), e))
    } else {
        Ok((Attribute::flag_spanned(key, key_span), k + 1))
    }
}

/// Reads the attributes of a block from token `k` up to its closing `}`; see
/// [`attribute_items`].
fn attribute_items_exec(
    tokens: &Vec<(Token, FullSpan)>,
    k: usize,
    eoi: usize,
    first: bool,
) -> (r: Result<(Vec<Attribute<FullSpan>>, usize), ParserError>)
    requires
        tokens@.len() <= usize::MAX,
        k <= tokens@.len(),
        spans_tracked(lexed_view(tokens@)),
    ensures
        match (r, attribute_items(lexed_view(tokens@), k as int, eoi, first)) {
            (Ok((a, j)), Ok((x, m))) => describes_attributes(a@, x) && j == m,
            (Err(e), Err(v)) => describes_error(e, v),
            _ => false,
        },
{
    let ghost toks = lexed_view(tokens@);
    let mut out: Vec<Attribute<FullSpan>> = Vec::new();
    let ghost mut done: Seq<AttributeSyntax> = seq![];
    let mut i = k;
    let mut at_start = first;
    assert(done + seq![] =~= done);
    loop
        invariant
            i <= tokens@.len(),
            toks == lexed_view(tokens@),
            spans_tracked(toks),
            describes_attributes(out@, done),
            tokens@.len() <= usize::MAX,
            prepend_items(done, attribute_items(toks, i as int, eoi, at_start))
                == attribute_items(toks, k as int, eoi, first),
        decreases tokens@.len() - i,
    {
        if at_start && is_right_curly(tokens, i) {
            assert(done + seq![] =~= done);
            return Ok((out, i));
        }
        if key_exec(tokens, i).is_none() {
            let expected = if at_start {
                vec![identifier_label(), Pattern::Token(Token::RightCurlyBracket)]
            } else {
                vec![identifier_label()]
            };
            assert(patterns_view(expected@) =~= (if at_start {
                seq![identifier_pattern(), PatternValue::Token(TokenValue::RightCurlyBracket)]
            } else {
                seq![identifier_pattern()]
            }));
            return Err(
                ParserError::ExpectedFound {
                    help: help_for_expected(&expected),
                    span: span_of(tokens, i, eoi),
                    expected,
                    found: found_token(tokens, i),
                },
            );
        }
        proof {
            lemma_attribute_at_advances(toks, i as int, eoi);
        }
        match attribute_exec(tokens, i, eoi) {
            Err(e) => {
                return Err(e);
            },
            Ok((a, j)) => {
                let ghost x = attribute_at(toks, i as int, eoi)->Ok_0.0;
                if is_comma(tokens, j) {
                    proof {
                        match attribute_items(toks, j + 1, eoi, false) {
                            Ok((rest, c)) => {
                                assert(done + (seq![x] + rest) =~= done.push(x) + rest);
                            },
                            Err(_) => {},
                        }
                        done = done.push(x);
                    }
                    out.push(a);
                    i = j + 1;
                    at_start = false;
                } else if is_right_curly(tokens, j) {
                    proof {
                        assert(done + seq![x] =~= done.push(x));
                        done = done.push(x);
                    }
                    out.push(a);
                    return Ok((out, j));
                } else {
                    let has_value = a.value.is_some();
                    let expected = if has_value {
                        vec![Pattern::Token(Token::Comma), Pattern::Token(Token::RightCurlyBracket)]
                    } else {
                        vec![
                            Pattern::Token(Token::Equal),
                            Pattern::Token(Token::Comma),
                            Pattern::Token(Token::RightCurlyBracket),
                        ]
                    };
                    assert(patterns_view(expected@) =~= after_attribute(x));
                    return Err(
                        ParserError::ExpectedFound {
                            help: help_for_expected(&expected),
                            span: span_of(tokens, j, eoi),
                            expected,
                            found: found_token(tokens, j),
                        },
                    );
                }
            },
        }
    }
}

proof fn lemma_lexed_tracked(s: Seq<char>)
    requires
        lex(s) is Ok,
    ensures
        spans_tracked(lex(s)->Ok_0),
{
}

/// Reads a single attribute, `key` or `key=value`, that makes up the whole of `source`. Gives
/// the attribute and the span of the input's tokens.
pub fn attribute_parser(source: &str) -> (r: Result<(Attribute<FullSpan>, FullSpan), ParserError>)
    ensures
        match lex(source@) {
            Err((span, found)) => r matches Err(e) && describes_error(
                e,
                ParserErrorValue::UnexpectedCharacter { span, found },
            ),
            Ok(toks) => match single_attribute(toks, input_end(source@)) {
                Ok((x, span)) => r matches Ok((a, sp)) && describes_attribute(a, x)
                    && sp.spec_range() == span,
                Err(v) => r matches Err(e) && describes_error(e, v),
            },
        },
{
    let eoi = source.as_bytes().len();
    let tokens = match raw_lex(source) {
        Err(mut errors) => {
            return Err(ParserError::from_lex_error(errors.remove(0)));
        },
        Ok(t) => t,
    };
    let n = tokens.len();
    proof {
        lemma_lexed_tracked(source@);
    }
    let (a, j) = match attribute_exec(&tokens, 0, eoi) {
        Err(e) => {
            return Err(e);
        },
        Ok(p) => p,
    };
    if j < n {
        let expected = if a.value.is_none() {
            vec![Pattern::Token(Token::Equal), Pattern::EndOfInput]
        } else {
            vec![Pattern::EndOfInput]
        };
        let ghost x = attribute_at(lexed_view(tokens@), 0, eoi)->Ok_0.0;
        assert(patterns_view(expected@) =~= (if x.value is None {
            seq![PatternValue::Token(TokenValue::Equal), PatternValue::EndOfInput]
        } else {
            seq![PatternValue::EndOfInput]
        }));
        return Err(
            ParserError::ExpectedFound {
                help: help_for_expected(&expected),
                span: tokens[j].1,
                expected,
                found: Some(tokens[j].0.duplicate()),
            },
        );
    }
    let span = a.span;
    Ok((a, span))
}

/// Reads a block of attributes from all of `tokens`; see [`attribute_block`].
fn attribute_block_exec(tokens: &Vec<(Token, FullSpan)>, eoi: usize) -> (r: Result<
    (Vec<Attribute<FullSpan>>, FullSpan),
    ParserError,
>)
    requires
        spans_tracked(lexed_view(tokens@)),
    ensures
        match (r, attribute_block(lexed_view(tokens@), eoi)) {
            (Ok((a, sp)), Ok((x, span))) => describes_attributes(a@, x) && sp.spec_range() == span,
            (Err(e), Err(v)) => describes_error(e, v),
            _ => false,
        },
{
    let ghost toks = lexed_view(tokens@);
    if tokens.len() == 0 {
        let a: Vec<Attribute<FullSpan>> = Vec::new();
        assert(describes_attributes(a@, seq![]));
        return Ok((a, FullSpan::from_range(eoi..eoi)));
    }
    if !is_left_curly(tokens, 0) {
        let expected = vec![Pattern::Token(Token::LeftCurlyBracket), Pattern::EndOfInput];
        assert(patterns_view(expected@) =~= seq![
            PatternValue::Token(TokenValue::LeftCurlyBracket),
            PatternValue::EndOfInput,
        ]);
        return Err(
            ParserError::ExpectedFound {
                help: help_for_expected(&expected),
                span: tokens[0].1,
                expected,
                found: Some(tokens[0].0.duplicate()),
            },
        );
    }
    let (items, c) = match attribute_items_exec(tokens, 1, eoi, true) {
        Err(e) => {
            return Err(e);
        },
        Ok(p) => p,
    };
    proof {
        lemma_attribute_items_end(toks, 1, eoi, true);
    }
    if c + 1 < tokens.len() {
        let expected = vec![Pattern::EndOfInput];
        assert(patterns_view(expected@) =~= seq![PatternValue::EndOfInput]);
        return Err(
            ParserError::ExpectedFound {
                help: help_for_expected(&expected),
                span: tokens[c + 1].1,
                expected,
                found: Some(tokens[c + 1].0.duplicate()),
            },
        );
    }
    let span = FullSpan::from_range(start_of(tokens, 0)..end_of(tokens, c));
    Ok((items, span))
}

/// Reads a block of attributes, `{a, b=c, ...}`, that makes up the whole of `source`; empty
/// input holds no attributes. Gives the attributes and the span of the input's tokens (the
/// empty span at the end of the input when there are none). Fails on the first attribute whose
/// key is already taken.
pub fn attributes_parser(source: &str) -> (r: Result<(Attributes<FullSpan>, FullSpan), ParserError>)
    ensures
        match lex(source@) {
            Err((span, found)) => r matches Err(e) && describes_error(
                e,
                ParserErrorValue::UnexpectedCharacter { span, found },
            ),
            Ok(toks) => match checked_block(attribute_block(toks, input_end(source@))) {
                Ok((items, span)) => r matches Ok((a, sp)) && a.well_formed()
                    && describes_attributes(a@, items) && sp.spec_range() == span,
                Err(v) => r matches Err(e) && describes_error(e, v),
            },
        },
{
    let eoi = source.as_bytes().len();
    let tokens = match raw_lex(source) {
        Err(mut errors) => {
            return Err(ParserError::from_lex_error(errors.remove(0)));
        },
        Ok(t) => t,
    };
    proof {
        lemma_lexed_tracked(source@);
    }
    let (items, span) = match attribute_block_exec(&tokens, eoi) {
        Err(e) => {
            return Err(e);
        },
        Ok(p) => p,
    };
    let ghost x = attribute_block(lexed_view(tokens@), eoi)->Ok_0.0;
    let ghost vec_view = items@;
    proof {
        assert(attribute_keys(vec_view) =~= syntax_keys(x));
    }
    assert(eoi == input_end(source@));
    match Attributes::with_attributes(items) {
        Ok(a) => Ok((a, span)),
        Err(e) => {
            proof {
                let keys = syntax_keys(x);
                let p = duplicate_error(keys)->0 as int;
                let q = first_duplicate_from(keys, 0)->0;
                assert(keys.take(0) =~= Seq::<Seq<char>>::empty());
                lemma_duplicate_error_distinct(keys, 0);
                lemma_duplicate_indices(keys);
                assert(describes_attribute(vec_view[p], x[p]));
                assert(describes_attribute(vec_view[q], x[q]));
            }
            Err(
            ParserError::Validation(
                ValidationError::DuplicateElement {
                    previous_occurrence: e.existing_span,
                    new_definition: e.new_span,
                    kind: ElementKind::Attribute,
                },
            ),
        )
        },
    }
}

} // verus!
