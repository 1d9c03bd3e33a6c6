//! Turns PRISM source text into [`Token`]s.
//!
//! Whitespace (as `char::is_whitespace` defines it) and line comments (`//` up to the end of the
//! line) separate tokens. At each token start the alternatives are tried in a fixed order:
//! floating-point literal, integer literal, syntax element, operator, word. Token spans are byte
//! offsets into the source.
use crate::identifier::{is_digit_char, is_identifier_char};
use crate::spans::{range_end, range_start, FullSpan, Span};
use crate::token::{token_for_word, word_token, Token, TokenValue};
use vstd::prelude::*;
use vstd::string::StringExecFns;
use vstd::utf8::{char_is_scalar, encode_scalar, encode_utf8};

verus! {

/// Whether `c` is white space, as `char::is_whitespace` decides it (the Unicode `White_Space`
/// property).
pub open spec fn is_whitespace(c: char) -> bool {
    ||| '\t' <= c && c <= '\r'
    ||| c == ' '
    ||| c == '\u{85}'
    ||| c == '\u{a0}'
    ||| c == '\u{1680}'
    ||| '\u{2000}' <= c && c <= '\u{200a}'
    ||| c == '\u{2028}'
    ||| c == '\u{2029}'
    ||| c == '\u{202f}'
    ||| c == '\u{205f}'
    ||| c == '\u{3000}'
}

/// Whether `c` may start a word: an ASCII letter or `_`.
pub open spec fn is_word_start(c: char) -> bool {
    ||| 'a' <= c && c <= 'z'
    ||| 'A' <= c && c <= 'Z'
    ||| c == '_'
}

/// Whether `s` holds `c` at index `i`.
pub open spec fn char_is(s: Seq<char>, i: int, c: char) -> bool {
    0 <= i < s.len() && s[i] == c
}

/// The kinds of character runs that the lexer skips over.
#[derive(PartialEq, Eq, Structural, Clone, Copy)]
pub enum RunKind {
    /// ASCII decimal digits.
    Digits,
    /// The digit `0`.
    Zeros,
    /// Characters that may continue a word.
    WordChars,
    /// White space.
    Whitespace,
}

/// Whether `c` belongs to a run of the given kind.
pub open spec fn in_run(c: char, kind: RunKind) -> bool {
    match kind {
        RunKind::Digits => is_digit_char(c),
        RunKind::Zeros => c == '0',
        RunKind::WordChars => is_identifier_char(c),
        RunKind::Whitespace => is_whitespace(c),
    }
}

/// The end of the longest run of `kind` characters that starts at `i`.
pub open spec fn run_end(s: Seq<char>, i: int, kind: RunKind) -> int
    decreases s.len() - i,
{
    if 0 <= i < s.len() && in_run(s[i], kind) {
        run_end(s, i + 1, kind)
    } else {
        i
    }
}

/// The end of the white space and line comments that start at `i`; `in_comment` says whether
/// `i` lies inside a line comment.
pub open spec fn trivia_from(s: Seq<char>, i: int, in_comment: bool) -> int
    decreases s.len() - i,
{
    if i < 0 || i >= s.len() {
        i
    } else if in_comment {
        if s[i] == '\n' {
            trivia_from(s, i + 1, false)
        } else {
            trivia_from(s, i + 1, true)
        }
    } else if is_whitespace(s[i]) {
        trivia_from(s, i + 1, false)
    } else if s[i] == '/' && char_is(s, i + 1, '/') {
        trivia_from(s, i + 2, true)
    } else {
        i
    }
}

/// The position after the white space and comments that start at `i`.
pub open spec fn skip_trivia(s: Seq<char>, i: int) -> int {
    trivia_from(s, i, false)
}

/// The end of the decimal integer at `i`: either the single digit `0`, or a digit other than
/// `0` followed by any digits.
pub open spec fn int_end(s: Seq<char>, i: int) -> Option<int> {
    if char_is(s, i, '0') {
        Some(i + 1)
    } else if 0 <= i < s.len() && '1' <= s[i] && s[i] <= '9' {
        Some(run_end(s, i + 1, RunKind::Digits))
    } else {
        None
    }
}

/// The end of the exponent at `i`: `e`, an optional `-`, any number of `0`, and an integer.
pub open spec fn exponent_end(s: Seq<char>, i: int) -> Option<int> {
    if char_is(s, i, 'e') {
        let j = if char_is(s, i + 1, '-') {
            i + 2
        } else {
            i + 1
        };
        int_end(s, run_end(s, j, RunKind::Zeros))
    } else {
        None
    }
}

/// The end of the floating-point literal at `i`: an integer, `.`, at least one digit, and an
/// optional exponent.
pub open spec fn float_end(s: Seq<char>, i: int) -> Option<int> {
    match int_end(s, i) {
        Some(j) => if char_is(s, j, '.') && 0 <= j + 1 < s.len() && is_digit_char(s[j + 1]) {
            let k = run_end(s, j + 1, RunKind::Digits);
            match exponent_end(s, k) {
                Some(m) => Some(m),
                None => Some(k),
            }
        } else {
            None
        },
        None => None,
    }
}

/// The syntax element at `i` and its end.
pub open spec fn syntax_element_at(s: Seq<char>, i: int) -> Option<(TokenValue, int)> {
    if char_is(s, i, '[') {
        Some((TokenValue::LeftSqBracket, i + 1))
    } else if char_is(s, i, ']') {
        Some((TokenValue::RightSqBracket, i + 1))
    } else if char_is(s, i, '(') {
        Some((TokenValue::LeftBracket, i + 1))
    } else if char_is(s, i, ')') {
        Some((TokenValue::RightBracket, i + 1))
    } else if char_is(s, i, '{') {
        Some((TokenValue::LeftCurlyBracket, i + 1))
    } else if char_is(s, i, '}') {
        Some((TokenValue::RightCurlyBracket, i + 1))
    } else if char_is(s, i, '-') && char_is(s, i + 1, '>') {
        Some((TokenValue::Arrow, i + 2))
    } else if char_is(s, i, '\'') && char_is(s, run_end(s, i + 1, RunKind::Whitespace), '=') {
        Some((TokenValue::AssignedTo, run_end(s, i + 1, RunKind::Whitespace) + 1))
    } else if char_is(s, i, ':') {
        Some((TokenValue::Colon, i + 1))
    } else if char_is(s, i, '.') && char_is(s, i + 1, '.') {
        Some((TokenValue::DotDot, i + 2))
    } else if char_is(s, i, ';') {
        Some((TokenValue::Semicolon, i + 1))
    } else if char_is(s, i, '"') {
        Some((TokenValue::Quote, i + 1))
    } else {
        None
    }
}

/// The operator at `i` and its end.
pub open spec fn operator_at(s: Seq<char>, i: int) -> Option<(TokenValue, int)> {
    if char_is(s, i, '-') {
        Some((TokenValue::Minus, i + 1))
    } else if char_is(s, i, '*') {
        Some((TokenValue::Multiply, i + 1))
    } else if char_is(s, i, '/') {
        Some((TokenValue::Divide, i + 1))
    } else if char_is(s, i, '%') {
        Some((TokenValue::Modulo, i + 1))
    } else if char_is(s, i, '+') {
        Some((TokenValue::Plus, i + 1))
    } else if char_is(s, i, '=') && char_is(s, i + 1, '>') {
        Some((TokenValue::Implies, i + 2))
    } else if char_is(s, i, '<') && char_is(s, i + 1, '=') && char_is(s, i + 2, '>') {
        Some((TokenValue::IfAndOnlyIf, i + 3))
    } else if char_is(s, i, '<') && char_is(s, i + 1, '=') {
        Some((TokenValue::LessOrEqual, i + 2))
    } else if char_is(s, i, '<') {
        Some((TokenValue::LessThan, i + 1))
    } else if char_is(s, i, '>') && char_is(s, i + 1, '=') {
        Some((TokenValue::GreaterOrEqual, i + 2))
    } else if char_is(s, i, '>') {
        Some((TokenValue::GreaterThan, i + 1))
    } else if char_is(s, i, '=') {
        Some((TokenValue::Equal, i + 1))
    } else if char_is(s, i, '!') && char_is(s, i + 1, '=') {
        Some((TokenValue::NotEqual, i + 2))
    } else if char_is(s, i, '!') {
        Some((TokenValue::Negation, i + 1))
    } else if char_is(s, i, '&') {
        Some((TokenValue::And, i + 1))
    } else if char_is(s, i, '|') {
        Some((TokenValue::Or, i + 1))
    } else if char_is(s, i, '?') {
        Some((TokenValue::Questionmark, i + 1))
    } else if char_is(s, i, ',') {
        Some((TokenValue::Comma, i + 1))
    } else {
        None
    }
}

/// The token that starts at `i` and its end, trying in turn a floating-point literal, an
/// integer literal, a syntax element, an operator and a word.
pub open spec fn token_at(s: Seq<char>, i: int) -> Option<(TokenValue, int)> {
    match float_end(s, i) {
        Some(e) => Some((TokenValue::Float(s.subrange(i, e)), e)),
        None => match int_end(s, i) {
            Some(e) => Some((TokenValue::Integer(s.subrange(i, e)), e)),
            None => match syntax_element_at(s, i) {
                Some(p) => Some(p),
                None => match operator_at(s, i) {
                    Some(p) => Some(p),
                    None => if 0 <= i < s.len() && is_word_start(s[i]) {
                        let e = run_end(s, i + 1, RunKind::WordChars);
                        Some((word_token(s.subrange(i, e)), e))
                    } else {
                        None
                    },
                },
            },
        },
    }
}

/// The tokens of `s` from index `i`, where a token starts, each with its start and end index;
/// after each token, white space and comments are skipped. `Err(p)`: no token starts at `p`.
pub open spec fn tokens_from(s: Seq<char>, i: int) -> Result<Seq<(TokenValue, int, int)>, int>
    decreases s.len() - i,
{
    if i < 0 || i >= s.len() {
        Ok(seq![])
    } else {
        match token_at(s, i) {
            None => Err(i),
            Some((t, e)) => {
                proof {
                    lemma_token_at_bounds(s, i);
                    lemma_trivia_bounds(s, e, false);
                }
                match tokens_from(s, skip_trivia(s, e)) {
                    Ok(rest) => Ok(seq![(t, i, e)] + rest),
                    Err(p) => Err(p),
                }
            },
        }
    }
}

/// The tokens of `s` with character positions. Empty input has no tokens; other input must
/// hold at least one token, and `Err(p)` says that no token starts at index `p` (`s.len()` when
/// the input is only white space and comments).
pub open spec fn lex_chars(s: Seq<char>) -> Result<Seq<(TokenValue, int, int)>, int> {
    if s.len() == 0 {
        Ok(seq![])
    } else if skip_trivia(s, 0) >= s.len() {
        Err(s.len() as int)
    } else {
        tokens_from(s, skip_trivia(s, 0))
    }
}

/// The number of bytes of the UTF-8 encoding of `c`.
pub open spec fn char_width(c: char) -> nat {
    if (c as u32) <= 0x7F {
        1
    } else if (c as u32) <= 0x7FF {
        2
    } else if (c as u32) <= 0xFFFF {
        3
    } else {
        4
    }
}

/// The byte offset in the UTF-8 encoding of `s` at which the character with index `i` starts.
pub open spec fn byte_offset(s: Seq<char>, i: int) -> nat {
    encode_utf8(s.take(i)).len()
}

/// The byte span of the characters `i..j` of `s`.
pub open spec fn byte_span(s: Seq<char>, i: int, j: int) -> Option<(usize, usize)> {
    Some((byte_offset(s, i) as usize, byte_offset(s, j) as usize))
}

/// The tokens of the source text `s` with their byte spans, or the span at which no token
/// starts and the character found there (`None` at the end of the input).
pub open spec fn lex(s: Seq<char>) -> Result<
    Seq<(TokenValue, Option<(usize, usize)>)>,
    (Option<(usize, usize)>, Option<char>),
> {
    match lex_chars(s) {
        Ok(tokens) => Ok(spanned(s, tokens)),
        Err(p) => if p < s.len() {
            Err((byte_span(s, p, p + 1), Some(s[p])))
        } else {
            Err((byte_span(s, s.len() as int, s.len() as int), None))
        },
    }
}

/// The tokens with their spans as mathematical values.
pub open spec fn lexed_view(tokens: Seq<(Token, FullSpan)>) -> Seq<(TokenValue, Option<(usize, usize)>)> {
    Seq::new(tokens.len(), |k: int| (tokens[k].0@, tokens[k].1.spec_range()))
}

proof fn lemma_run_bounds(s: Seq<char>, i: int, kind: RunKind)
    requires
        0 <= i <= s.len(),
    ensures
        i <= run_end(s, i, kind) <= s.len(),
        run_end(s, i, kind) < s.len() ==> !in_run(s[run_end(s, i, kind)], kind),
    decreases s.len() - i,
{
    if i < s.len() && in_run(s[i], kind) {
        lemma_run_bounds(s, i + 1, kind);
    }
}

pub proof fn lemma_trivia_bounds(s: Seq<char>, i: int, in_comment: bool)
    requires
        0 <= i <= s.len(),
    ensures
        i <= trivia_from(s, i, in_comment) <= s.len(),
    decreases s.len() - i,
{
    if i < s.len() {
        if in_comment {
            lemma_trivia_bounds(s, i + 1, s[i] != '\n');
        } else if is_whitespace(s[i]) {
            lemma_trivia_bounds(s, i + 1, false);
        } else if s[i] == '/' && char_is(s, i + 1, '/') {
            lemma_trivia_bounds(s, i + 2, true);
        }
    }
}

proof fn lemma_int_bounds(s: Seq<char>, i: int)
    requires
        0 <= i <= s.len(),
    ensures
        int_end(s, i) matches Some(e) ==> i < e <= s.len(),
{
    if i < s.len() && '1' <= s[i] && s[i] <= '9' {
        lemma_run_bounds(s, i + 1, RunKind::Digits);
    }
}

pub proof fn lemma_token_at_bounds(s: Seq<char>, i: int)
    requires
        0 <= i < s.len(),
    ensures
        token_at(s, i) matches Some((t, e)) ==> i < e <= s.len(),
{
    lemma_int_bounds(s, i);
    if let Some(j) = int_end(s, i) {
        if char_is(s, j, '.') && 0 <= j + 1 < s.len() && is_digit_char(s[j + 1]) {
            lemma_run_bounds(s, j + 1, RunKind::Digits);
            let k = run_end(s, j + 1, RunKind::Digits);
            if char_is(s, k, 'e') {
                let m = if char_is(s, k + 1, '-') {
                    k + 2
                } else {
                    k + 1
                };
                lemma_run_bounds(s, m, RunKind::Zeros);
                lemma_int_bounds(s, run_end(s, m, RunKind::Zeros));
            }
        }
    }
    lemma_run_bounds(s, i + 1, RunKind::Whitespace);
    lemma_run_bounds(s, i + 1, RunKind::WordChars);
}

/// The UTF-8 encoding of a concatenation is the concatenation of the encodings.
proof fn lemma_encode_concat(a: Seq<char>, b: Seq<char>)
    ensures
        encode_utf8(a + b) == encode_utf8(a) + encode_utf8(b),
    decreases a.len(),
{
    if a.len() == 0 {
        assert(a + b =~= b);
        assert(encode_utf8(a) + encode_utf8(b) =~= encode_utf8(b));
    } else {
        assert((a + b).drop_first() =~= a.drop_first() + b);
        lemma_encode_concat(a.drop_first(), b);
        assert(encode_utf8(a + b) =~= encode_utf8(a) + encode_utf8(b));
    }
}

proof fn lemma_char_width(c: char)
    ensures
        encode_utf8(seq![c]).len() == char_width(c),
{
    char_is_scalar(c);
    assert(seq![c].drop_first() =~= Seq::<char>::empty());
    assert(encode_utf8(seq![c]) == encode_scalar(c as u32) + encode_utf8(Seq::<char>::empty()));
}

proof fn lemma_byte_offset_step(s: Seq<char>, i: int)
    requires
        0 <= i < s.len(),
    ensures
        byte_offset(s, i + 1) == byte_offset(s, i) + char_width(s[i]),
{
    assert(s.take(i + 1) =~= s.take(i) + seq![s[i]]);
    lemma_encode_concat(s.take(i), seq![s[i]]);
    lemma_char_width(s[i]);
}

proof fn lemma_byte_offset_mono(s: Seq<char>, i: int, j: int)
    requires
        0 <= i <= j <= s.len(),
    ensures
        byte_offset(s, i) <= byte_offset(s, j),
        byte_offset(s, j) <= encode_utf8(s).len(),
{
    assert(s.take(j) =~= s.take(i) + s.subrange(i, j));
    lemma_encode_concat(s.take(i), s.subrange(i, j));
    assert(s =~= s.take(j) + s.subrange(j, s.len() as int));
    lemma_encode_concat(s.take(j), s.subrange(j, s.len() as int));
}

/// The number of bytes of the UTF-8 encoding of `c`.
fn width_of(c: char) -> (r: usize)
    ensures
        r == char_width(c),
{
    let v: u32 = c as u32;
    if v <= 0x7F {
        1
    } else if v <= 0x7FF {
        2
    } else if v <= 0xFFFF {
        3
    } else {
        4
    }
}

/// The byte offset of character `to`, given that of character `from`.
fn advance_bytes(s: &Vec<char>, from: usize, to: usize, offset: usize) -> (r: usize)
    requires
        from <= to <= s@.len(),
        offset == byte_offset(s@, from as int),
        encode_utf8(s@).len() <= usize::MAX,
    ensures
        r == byte_offset(s@, to as int),
{
    let mut i = from;
    let mut b = offset;
    while i < to
        invariant
            from <= i <= to <= s@.len(),
            b == byte_offset(s@, i as int),
            encode_utf8(s@).len() <= usize::MAX,
        decreases to - i,
    {
        proof {
            lemma_byte_offset_step(s@, i as int);
            lemma_byte_offset_mono(s@, i as int + 1, s@.len() as int);
        }
        b = b + width_of(s[i]);
        i = i + 1;
    }
    b
}

fn char_at_is(s: &Vec<char>, i: usize, c: char) -> (r: bool)
    ensures
        r == char_is(s@, i as int, c),
{
    i < s.len() && s[i] == c
}

fn in_run_exec(c: char, kind: RunKind) -> (r: bool)
    ensures
        r == in_run(c, kind),
{
    match kind {
        RunKind::Digits => '0' <= c && c <= '9',
        RunKind::Zeros => c == '0',
        RunKind::WordChars => ('a' <= c && c <= 'z') || ('A' <= c && c <= 'Z') || ('0' <= c && c
            <= '9') || c == '_',
        RunKind::Whitespace => ('\t' <= c && c <= '\r') || c == ' ' || c == '\u{85}' || c
            == '\u{a0}' || c == '\u{1680}' || ('\u{2000}' <= c && c <= '\u{200a}') || c
            == '\u{2028}' || c == '\u{2029}' || c == '\u{202f}' || c == '\u{205f}' || c
            == '\u{3000}',
    }
}

fn run_end_exec(s: &Vec<char>, i: usize, kind: RunKind) -> (r: usize)
    requires
        i <= s@.len(),
    ensures
        r == run_end(s@, i as int, kind),
        i <= r <= s@.len(),
{
    let mut j = i;
    while j < s.len() && in_run_exec(s[j], kind)
        invariant
            i <= j <= s@.len(),
            run_end(s@, j as int, kind) == run_end(s@, i as int, kind),
        decreases s@.len() - j,
    {
        j = j + 1;
    }
    j
}

fn skip_trivia_exec(s: &Vec<char>, i: usize) -> (r: usize)
    requires
        i <= s@.len(),
    ensures
        r == skip_trivia(s@, i as int),
        i <= r <= s@.len(),
{
    let mut j = i;
    let mut in_comment = false;
    while j < s.len()
        invariant
            i <= j <= s@.len(),
            trivia_from(s@, j as int, in_comment) == skip_trivia(s@, i as int),
        decreases s@.len() - j,
    {
        let c = s[j];
        if in_comment {
            in_comment = c != '\n';
            j = j + 1;
        } else if in_run_exec(c, RunKind::Whitespace) {
            j = j + 1;
        } else if c == '/' && char_at_is(s, j + 1, '/') {
            in_comment = true;
            j = j + 2;
        } else {
            return j;
        }
    }
    j
}

fn int_end_exec(s: &Vec<char>, i: usize) -> (r: Option<usize>)
    requires
        s@.len() <= usize::MAX,
        i <= s@.len(),
    ensures
        r matches Some(e) ==> int_end(s@, i as int) == Some(e as int),
        r is None ==> int_end(s@, i as int) is None,
{
    if char_at_is(s, i, '0') {
        Some(i + 1)
    } else if i < s.len() && '1' <= s[i] && s[i] <= '9' {
        Some(run_end_exec(s, i + 1, RunKind::Digits))
    } else {
        None
    }
}

fn float_end_exec(s: &Vec<char>, i: usize) -> (r: Option<usize>)
    requires
        s@.len() <= usize::MAX,
        i <= s@.len(),
    ensures
        r matches Some(e) ==> float_end(s@, i as int) == Some(e as int),
        r is None ==> float_end(s@, i as int) is None,
{
    proof {
        lemma_int_bounds(s@, i as int);
    }
    match int_end_exec(s, i) {
        None => None,
        Some(j) => {
            if char_at_is(s, j, '.') && j + 1 < s.len() && '0' <= s[j + 1] && s[j + 1] <= '9' {
                let k = run_end_exec(s, j + 1, RunKind::Digits);
                if char_at_is(s, k, 'e') {
                    let m = if char_at_is(s, k + 1, '-') {
                        k + 2
                    } else {
                        k + 1
                    };
                    let z = run_end_exec(s, m, RunKind::Zeros);
                    match int_end_exec(s, z) {
                        Some(e) => Some(e),
                        None => Some(k),
                    }
                } else {
                    Some(k)
                }
            } else {
                None
            }
        },
    }
}

/// The syntax element at `i` and its end.
fn syntax_element_exec(s: &Vec<char>, i: usize) -> (r: Option<(Token, usize)>)
    requires
        s@.len() <= usize::MAX,
        i < s@.len(),
    ensures
        r matches Some((t, e)) ==> syntax_element_at(s@, i as int) == Some((t@, e as int)),
        r is None ==> syntax_element_at(s@, i as int) is None,
{
    let c = s[i];
    if c == '[' {
        Some((Token::LeftSqBracket, i + 1))
    } else if c == ']' {
        Some((Token::RightSqBracket, i + 1))
    } else if c == '(' {
        Some((Token::LeftBracket, i + 1))
    } else if c == ')' {
        Some((Token::RightBracket, i + 1))
    } else if c == '{' {
        Some((Token::LeftCurlyBracket, i + 1))
    } else if c == '}' {
        Some((Token::RightCurlyBracket, i + 1))
    } else if c == '-' && char_at_is(s, i + 1, '>') {
        Some((Token::Arrow, i + 2))
    } else if c == '\'' && char_at_is(s, run_end_exec(s, i + 1, RunKind::Whitespace), '=') {
        let w = run_end_exec(s, i + 1, RunKind::Whitespace);
        Some((Token::AssignedTo, w + 1))
    } else if c == ':' {
        Some((Token::Colon, i + 1))
    } else if c == '.' && char_at_is(s, i + 1, '.') {
        Some((Token::DotDot, i + 2))
    } else if c == ';' {
        Some((Token::Semicolon, i + 1))
    } else if c == '"' {
        Some((Token::Quote, i + 1))
    } else {
        None
    }
}

/// The operator at `i` and its end.
fn operator_exec(s: &Vec<char>, i: usize) -> (r: Option<(Token, usize)>)
    requires
        s@.len() <= usize::MAX,
        i < s@.len(),
    ensures
        r matches Some((t, e)) ==> operator_at(s@, i as int) == Some((t@, e as int)),
        r is None ==> operator_at(s@, i as int) is None,
{
    let c = s[i];
    if c == '-' {
        Some((Token::Minus, i + 1))
    } else if c == '*' {
        Some((Token::Multiply, i + 1))
    } else if c == '/' {
        Some((Token::Divide, i + 1))
    } else if c == '%' {
        Some((Token::Modulo, i + 1))
    } else if c == '+' {
        Some((Token::Plus, i + 1))
    } else if c == '=' && char_at_is(s, i + 1, '>') {
        Some((Token::Implies, i + 2))
    } else if c == '<' && char_at_is(s, i + 1, '=') && char_at_is(s, i + 2, '>') {
        Some((Token::IfAndOnlyIf, i + 3))
    } else if c == '<' && char_at_is(s, i + 1, '=') {
        Some((Token::LessOrEqual, i + 2))
    } else if c == '<' {
        Some((Token::LessThan, i + 1))
    } else if c == '>' && char_at_is(s, i + 1, '=') {
        Some((Token::GreaterOrEqual, i + 2))
    } else if c == '>' {
        Some((Token::GreaterThan, i + 1))
    } else if c == '=' {
        Some((Token::Equal, i + 1))
    } else if c == '!' && char_at_is(s, i + 1, '=') {
        Some((Token::NotEqual, i + 2))
    } else if c == '!' {
        Some((Token::Negation, i + 1))
    } else if c == '&' {
        Some((Token::And, i + 1))
    } else if c == '|' {
        Some((Token::Or, i + 1))
    } else if c == '?' {
        Some((Token::Questionmark, i + 1))
    } else if c == ',' {
        Some((Token::Comma, i + 1))
    } else {
        None
    }
}

/// The token that starts at `i` and its end; `source` is the text whose characters `s` holds.
fn token_at_exec(source: &str, s: &Vec<char>, i: usize) -> (r: Option<(Token, usize)>)
    requires
        s@.len() <= usize::MAX,
        i < s@.len(),
        source@ == s@,
    ensures
        r matches Some((t, e)) ==> token_at(s@, i as int) == Some((t@, e as int)),
        r is None ==> token_at(s@, i as int) is None,
{
    proof {
        lemma_token_at_bounds(s@, i as int);
        lemma_int_bounds(s@, i as int);
    }
    if let Some(e) = float_end_exec(s, i) {
        let text = String::from_str(source.substring_char(i, e));
        return Some((Token::Float(text), e));
    }
    if let Some(e) = int_end_exec(s, i) {
        let text = String::from_str(source.substring_char(i, e));
        return Some((Token::Integer(text), e));
    }
    if let Some(p) = syntax_element_exec(s, i) {
        return Some(p);
    }
    if let Some(p) = operator_exec(s, i) {
        return Some(p);
    }
    let c = s[i];
    if ('a' <= c && c <= 'z') || ('A' <= c && c <= 'Z') || c == '_' {
        let e = run_end_exec(s, i + 1, RunKind::WordChars);
        let word = source.substring_char(i, e);
        Some((token_for_word(word), e))
    } else {
        None
    }
}

/// Where lexing resumes after a failure just before `k`: the first position from `k` on from
/// which, once white space and comments are skipped, a token starts; the end of the input if
/// there is none.
pub open spec fn resume_at(s: Seq<char>, k: int) -> int
    decreases s.len() - k,
{
    if k < 0 || k >= s.len() {
        s.len() as int
    } else if skip_trivia(s, k) < s.len() && token_at(s, skip_trivia(s, k)) is Some {
        skip_trivia(s, k)
    } else {
        resume_at(s, k + 1)
    }
}

pub proof fn lemma_resume_bounds(s: Seq<char>, k: int)
    requires
        0 <= k,
    ensures
        k <= resume_at(s, k) <= s.len() || (k > s.len() && resume_at(s, k) == s.len()),
    decreases s.len() - k,
{
    if k < s.len() {
        lemma_trivia_bounds(s, k, false);
        if !(skip_trivia(s, k) < s.len() && token_at(s, skip_trivia(s, k)) is Some) {
            lemma_resume_bounds(s, k + 1);
        }
    }
}

/// The positions from `i` on (where a token or the end of the input is expected) at which no
/// token starts: lexing skips characters from each such position until it can resume (see
/// [`resume_at`]), so each stretch of skipped characters gives one position.
pub open spec fn failures_from(s: Seq<char>, i: int) -> Seq<int>
    decreases s.len() - i,
{
    if i < 0 || i >= s.len() {
        seq![]
    } else {
        match token_at(s, i) {
            Some((t, e)) => {
                proof {
                    lemma_token_at_bounds(s, i);
                    lemma_trivia_bounds(s, e, false);
                }
                failures_from(s, skip_trivia(s, e))
            },
            None => {
                proof {
                    lemma_resume_bounds(s, i + 1);
                }
                seq![i] + failures_from(s, resume_at(s, i + 1))
            },
        }
    }
}

/// The character positions at which lexing `s` fails, in order; none if `s` splits into tokens.
/// Input that holds only white space and comments fails once, at its end.
pub open spec fn lex_failures(s: Seq<char>) -> Seq<int> {
    if s.len() == 0 {
        seq![]
    } else if skip_trivia(s, 0) >= s.len() {
        seq![s.len() as int]
    } else {
        failures_from(s, skip_trivia(s, 0))
    }
}

/// The span and character of a failure at character `p`: the character there, or the empty span
/// at the end of the input.
pub open spec fn failure_at(s: Seq<char>, p: int) -> (Option<(usize, usize)>, Option<char>) {
    if p < s.len() {
        (byte_span(s, p, p + 1), Some(s[p]))
    } else {
        (byte_span(s, s.len() as int, s.len() as int), None)
    }
}

/// The errors of lexing `s`, in order: one for each failure (see [`lex_failures`]).
pub open spec fn lex_errors(s: Seq<char>) -> Seq<(Option<(usize, usize)>, Option<char>)> {
    lex_failures(s).map_values(|p: int| failure_at(s, p))
}

proof fn lemma_failures_follow_tokens(s: Seq<char>, i: int)
    requires
        0 <= i,
    ensures
        tokens_from(s, i) is Ok <==> failures_from(s, i).len() == 0,
        tokens_from(s, i) matches Err(p) ==> failures_from(s, i)[0] == p,
    decreases s.len() - i,
{
    if i < s.len() {
        if let Some((t, e)) = token_at(s, i) {
            lemma_token_at_bounds(s, i);
            lemma_trivia_bounds(s, e, false);
            lemma_failures_follow_tokens(s, skip_trivia(s, e));
        }
    }
}

/// Lexing fails exactly when there are errors, and the first error is the one that [`lex`] gives.
pub proof fn lemma_lex_errors(s: Seq<char>)
    ensures
        lex(s) is Ok <==> lex_errors(s).len() == 0,
        lex(s) matches Err(e) ==> lex_errors(s)[0] == e,
{
    if s.len() > 0 && skip_trivia(s, 0) < s.len() {
        lemma_trivia_bounds(s, 0, false);
        lemma_failures_follow_tokens(s, skip_trivia(s, 0));
    }
}

/// Where lexing resumes after a failure just before `k`; see [`resume_at`].
fn resume_exec(source: &str, s: &Vec<char>, k: usize) -> (r: usize)
    requires
        source@ == s@,
        k <= s@.len(),
    ensures
        r == resume_at(s@, k as int),
        k <= r <= s@.len(),
{
    let n = s.len();
    let mut j = k;
    while j < n
        invariant
            n == s@.len(),
            source@ == s@,
            k <= j <= n,
            resume_at(s@, j as int) == resume_at(s@, k as int),
        decreases n - j,
    {
        let t = skip_trivia_exec(s, j);
        if t < n {
            if token_at_exec(source, s, t).is_some() {
                return t;
            }
        }
        j = j + 1;
    }
    n
}

/// The failures of lexing from `i` on; see [`failures_from`].
fn failures_exec(source: &str, s: &Vec<char>, i: usize) -> (r: Vec<usize>)
    requires
        source@ == s@,
        i <= s@.len(),
    ensures
        r@.map_values(|p: usize| p as int) == failures_from(s@, i as int),
        forall|k: int| 0 <= k < r@.len() ==> #[trigger] r@[k] <= s@.len(),
{
    let n = s.len();
    let mut out: Vec<usize> = Vec::new();
    let ghost mut done: Seq<int> = seq![];
    let mut j = i;
    while j < n
        invariant
            n == s@.len(),
            source@ == s@,
            i <= j <= n,
            out@.map_values(|p: usize| p as int) == done,
            forall|k: int| 0 <= k < out@.len() ==> #[trigger] out@[k] <= n,
            done + failures_from(s@, j as int) == failures_from(s@, i as int),
        decreases n - j,
    {
        match token_at_exec(source, s, j) {
            Some((_, e)) => {
                proof {
                    lemma_token_at_bounds(s@, j as int);
                    lemma_trivia_bounds(s@, e as int, false);
                }
                j = skip_trivia_exec(s, e);
            },
            None => {
                let next = resume_exec(source, s, j + 1);
                proof {
                    assert(done + (seq![j as int] + failures_from(s@, next as int)) =~= done.push(j as int)
                        + failures_from(s@, next as int));
                    done = done.push(j as int);
                }
                out.push(j);
                assert(out@.map_values(|p: usize| p as int) =~= done);
                j = next;
            },
        }
    }
    assert(done + failures_from(s@, j as int) =~= done);
    out
}

/// The failures of lexing `s`; see [`lex_failures`].
fn lex_failures_exec(source: &str, s: &Vec<char>) -> (r: Vec<usize>)
    requires
        source@ == s@,
    ensures
        r@.map_values(|p: usize| p as int) == lex_failures(s@),
        forall|k: int| 0 <= k < r@.len() ==> #[trigger] r@[k] <= s@.len(),
{
    let n = s.len();
    if n == 0 {
        let out: Vec<usize> = Vec::new();
        assert(out@.map_values(|p: usize| p as int) =~= Seq::<int>::empty());
        return out;
    }
    let start = skip_trivia_exec(s, 0);
    if start >= n {
        let mut out: Vec<usize> = Vec::new();
        out.push(n);
        assert(out@.map_values(|p: usize| p as int) =~= seq![n as int]);
        return out;
    }
    failures_exec(source, s, start)
}

/// Combines tokens already found with the outcome of lexing the rest.
pub open spec fn prepend_tokens(
    done: Seq<(TokenValue, int, int)>,
    rest: Result<Seq<(TokenValue, int, int)>, int>,
) -> Result<Seq<(TokenValue, int, int)>, int> {
    match rest {
        Ok(r) => Ok(done + r),
        Err(p) => Err(p),
    }
}

/// Tokens with character positions turned into tokens with byte spans.
pub open spec fn spanned(s: Seq<char>, t: Seq<(TokenValue, int, int)>) -> Seq<
    (TokenValue, Option<(usize, usize)>),
> {
    Seq::new(t.len(), |k: int| (t[k].0, byte_span(s, t[k].1, t[k].2)))
}

/// The tokens of `source` with their byte spans; `Err(p)`: no token starts at character `p`.
fn lex_tokens(source: &str, s: &Vec<char>) -> (r: Result<Vec<(Token, FullSpan)>, usize>)
    requires
        source@ == s@,
        encode_utf8(s@).len() <= usize::MAX,
    ensures
        match (r, lex_chars(s@)) {
            (Ok(v), Ok(t)) => lexed_view(v@) == spanned(s@, t),
            (Err(p), Err(q)) => p == q,
            _ => false,
        },
{
    let n = s.len();
    if n == 0 {
        let out: Vec<(Token, FullSpan)> = Vec::new();
        assert(lexed_view(out@) =~= spanned(s@, seq![]));
        return Ok(out);
    }
    let mut i = skip_trivia_exec(s, 0);
    if i >= n {
        return Err(n);
    }
    let mut out: Vec<(Token, FullSpan)> = Vec::new();
    let ghost mut done: Seq<(TokenValue, int, int)> = seq![];
    let mut char_pos: usize = 0;
    let mut byte_pos: usize = 0;
    assert(s@.take(0) =~= Seq::<char>::empty());
    assert(lexed_view(out@) =~= spanned(s@, done));
    while i < n
        invariant
            n == s@.len(),
            source@ == s@,
            encode_utf8(s@).len() <= usize::MAX,
            char_pos <= i <= n,
            byte_pos == byte_offset(s@, char_pos as int),
            lexed_view(out@) == spanned(s@, done),
            prepend_tokens(done, tokens_from(s@, i as int)) == lex_chars(s@),
        decreases n - i,
    {
        match token_at_exec(source, s, i) {
            None => {
                return Err(i);
            },
            Some((t, e)) => {
                proof {
                    lemma_token_at_bounds(s@, i as int);
                    lemma_trivia_bounds(s@, e as int, false);
                }
                let start = advance_bytes(s, char_pos, i, byte_pos);
                let end = advance_bytes(s, i, e, start);
                proof {
                    let tv = t@;
                    match tokens_from(s@, skip_trivia(s@, e as int)) {
                        Ok(rest) => {
                            assert(done + (seq![(tv, i as int, e as int)] + rest) =~= done.push(
                                (tv, i as int, e as int),
                            ) + rest);
                        },
                        Err(_) => {},
                    }
                    done = done.push((tv, i as int, e as int));
                }
                let ghost old_out = out@;
                let span = FullSpan::from_range(start..end);
                assert(span.spec_range() == byte_span(s@, i as int, e as int));
                out.push((t, span));
                proof {
                    let old_done = done.drop_last();
                    assert(old_done =~= done.take(done.len() - 1));
                    assert(lexed_view(old_out) == spanned(s@, old_done));
                    assert(old_out.len() == old_done.len());
                    assert(out@ == old_out.push(out@.last()));
                    assert forall|k: int| 0 <= k < done.len() implies #[trigger] lexed_view(
                        out@,
                    )[k] == spanned(s@, done)[k] by {
                        if k < done.len() - 1 {
                            assert(out@[k] == old_out[k]);
                            assert(lexed_view(old_out)[k] == spanned(s@, old_done)[k]);
                        }
                    }
                    assert(lexed_view(out@) =~= spanned(s@, done));
                }
                char_pos = e;
                byte_pos = end;
                i = skip_trivia_exec(s, e);
            },
        }
    }
    proof {
        assert(done + seq![] =~= done);
    }
    Ok(out)
}

/// An error found while lexing: no token starts at `span`, where the character `found` stands
/// (`None` at the end of the input).
#[derive(Debug, PartialEq, Eq)]
pub struct LexError {
    /// The byte span of the offending character, or the empty span at the end of the input.
    pub span: FullSpan,
    /// The character found, or `None` at the end of the input.
    pub found: Option<char>,
}

/// The errors `es` are the ones that `vs` describe, in order.
pub open spec fn describes_lex_errors(es: Seq<LexError>, vs: Seq<(Option<(usize, usize)>, Option<char>)>) -> bool {
    &&& es.len() == vs.len()
    &&& forall|i: int| 0 <= i < vs.len() ==> (#[trigger] es[i]).span.spec_range() == vs[i].0 && es[i].found == vs[i].1
}

/// Splits `program` into tokens with their byte spans, or gives every place where it cannot.
///
/// Empty input has no tokens. Input that holds only white space and comments is refused at its
/// end. Where, after a token (and the white space and comments that follow it), no token starts,
/// an error is reported and characters are skipped until a token starts again; each stretch of
/// skipped characters gives one error (see [`lex_errors`]).
pub fn raw_lex(program: &str) -> (r: Result<Vec<(Token, FullSpan)>, Vec<LexError>>)
    ensures
        match (r, lex(program@)) {
            (Ok(v), Ok(t)) => lexed_view(v@) == t,
            (Err(es), Err(_)) => describes_lex_errors(es@, lex_errors(program@)),
            _ => false,
        },
        r matches Err(es) ==> es@.len() > 0 && (lex(program@) matches Err((span, found)) && es@[0].span.spec_range()
            == span && es@[0].found == found),
{
    let s = crate::text::chars_of(program);
    let total = program.as_bytes().len();
    proof {
        assert(s@.take(s@.len() as int) =~= s@);
        assert(s@.take(0) =~= Seq::<char>::empty());
        lemma_byte_offset_mono(s@, 0, s@.len() as int);
        lemma_lex_errors(s@);
    }
    match lex_tokens(program, &s) {
        Err(_) => {
            let failures = lex_failures_exec(program, &s);
            let ghost all = lex_errors(s@);
            let mut errors: Vec<LexError> = Vec::new();
            let mut k: usize = 0;
            while k < failures.len()
                invariant
                    s@ == program@,
                    total == encode_utf8(s@).len(),
                    all == lex_errors(s@),
                    failures@.map_values(|p: usize| p as int) == lex_failures(s@),
                    forall|j: int| 0 <= j < failures@.len() ==> #[trigger] failures@[j] <= s@.len(),
                    k <= failures@.len(),
                    errors@.len() == k,
                    forall|i: int| 0 <= i < k ==> (#[trigger] errors@[i]).span.spec_range() == all[i].0 && errors@[i].found == all[i].1,
                decreases failures@.len() - k,
            {
                let p = failures[k];
                proof {
                    assert(lex_failures(s@)[k as int] == p as int);
                }
                let e = if p < s.len() {
                    proof {
                        lemma_byte_offset_mono(s@, 0, p as int);
                        lemma_byte_offset_mono(s@, p as int, p as int + 1);
                        lemma_byte_offset_mono(s@, p as int + 1, s@.len() as int);
                    }
                    let start = advance_bytes(&s, 0, p, 0);
                    let end = advance_bytes(&s, p, p + 1, start);
                    LexError { span: FullSpan::from_range(start..end), found: Some(s[p]) }
                } else {
                    proof {
                        assert(s@.take(s@.len() as int) =~= s@);
                    }
                    LexError { span: FullSpan::from_range(total..total), found: None }
                };
                proof {
                    assert(all[k as int] == failure_at(s@, p as int));
                    assert(e.span.spec_range() == all[k as int].0 && e.found == all[k as int].1);
                }
                let ghost before = errors@;
                errors.push(e);
                proof {
                    assert forall|i: int| 0 <= i < k + 1 implies (#[trigger] errors@[i]).span.spec_range() == all[i].0
                        && errors@[i].found == all[i].1 by {
                        if i < k {
                            assert(errors@[i] == before[i]);
                        }
                    }
                }
                k = k + 1;
            }
            proof {
                assert(all.len() == failures@.len());
            }
            Err(errors)
        },
        Ok(tokens) => Ok(tokens),
    }
}

/// The tokens `ts` lie within `lo..hi`, each non-empty, in order and without overlap.
pub open spec fn positions_ordered(ts: Seq<(TokenValue, int, int)>, lo: int, hi: int) -> bool {
    &&& forall|a: int| 0 <= a < ts.len() ==> lo <= (#[trigger] ts[a]).1 < ts[a].2 <= hi
    &&& forall|a: int, b: int| 0 <= a < b < ts.len() ==> (#[trigger] ts[a]).2 <= (#[trigger] ts[b]).1
}

proof fn lemma_tokens_from_ordered(s: Seq<char>, i: int)
    requires
        0 <= i,
    ensures
        tokens_from(s, i) matches Ok(ts) ==> positions_ordered(ts, i, s.len() as int),
    decreases s.len() - i,
{
    if i < s.len() {
        if let Some((t, e)) = token_at(s, i) {
            lemma_token_at_bounds(s, i);
            lemma_trivia_bounds(s, e, false);
            let k = skip_trivia(s, e);
            lemma_tokens_from_ordered(s, k);
            if let Ok(rest) = tokens_from(s, k) {
                let ts = seq![(t, i, e)] + rest;
                assert forall|a: int, b: int| 0 <= a < b < ts.len() implies (#[trigger] ts[a]).2 <= (#[trigger] ts[b]).1 by {
                    if a > 0 {
                        assert(ts[a] == rest[a - 1]);
                    }
                    assert(ts[b] == rest[b - 1]);
                }
                assert forall|a: int| 0 <= a < ts.len() implies i <= (#[trigger] ts[a]).1 < ts[a].2 <= s.len() by {
                    if a > 0 {
                        assert(ts[a] == rest[a - 1]);
                    }
                }
            }
        }
    }
}

proof fn lemma_byte_offset_strict(s: Seq<char>, i: int, j: int)
    requires
        0 <= i < j <= s.len(),
    ensures
        byte_offset(s, i) < byte_offset(s, j),
{
    lemma_byte_offset_step(s, i);
    lemma_byte_offset_mono(s, i + 1, j);
}

/// The tokens of a source text stand in the order of the text: each span is non-empty, lies
/// within the text's bytes, and ends before the next token's span starts.
pub proof fn law_token_spans_ordered(s: Seq<char>)
    requires
        encode_utf8(s).len() <= usize::MAX,
    ensures
        lex(s) matches Ok(toks) ==> (forall|a: int|
            0 <= a < toks.len() ==> (#[trigger] toks[a]).1 is Some && range_start(toks[a].1) < range_end(toks[a].1)
                <= encode_utf8(s).len()) && (forall|a: int, b: int|
            0 <= a < b < toks.len() ==> range_end((#[trigger] toks[a]).1) <= range_start((#[trigger] toks[b]).1)),
{
    if let Ok(ts) = lex_chars(s) {
        if s.len() > 0 {
            lemma_trivia_bounds(s, 0, false);
            lemma_tokens_from_ordered(s, skip_trivia(s, 0));
        }
        let toks = spanned(s, ts);
        assert forall|a: int| 0 <= a < toks.len() implies (#[trigger] toks[a]).1 is Some && range_start(toks[a].1)
            < range_end(toks[a].1) <= encode_utf8(s).len() by {
            lemma_byte_offset_strict(s, ts[a].1, ts[a].2);
            lemma_byte_offset_mono(s, ts[a].2, s.len() as int);
            lemma_byte_offset_mono(s, 0, ts[a].1);
        }
        assert forall|a: int, b: int| 0 <= a < b < toks.len() implies range_end((#[trigger] toks[a]).1) <= range_start(
            (#[trigger] toks[b]).1) by {
            let _ = ts[a];
            let _ = ts[b];
            lemma_byte_offset_mono(s, ts[a].2, ts[b].1);
            lemma_byte_offset_mono(s, ts[b].1, s.len() as int);
            lemma_byte_offset_mono(s, ts[a].2, s.len() as int);
        }
    }
}

} // verus!
