//! Errors reported while turning source text into PRISM components.
use crate::errors::ElementKind;
use crate::formula_dependencies::CyclicDependency;
use crate::identifier::Identifier;
use crate::normalisation::ModuleExpansionError;
use crate::identifier::{matches_name_error, InvalidName};
use crate::lexer::LexError;
use crate::spans::{FullSpan, Span};
use crate::token::{Token, TokenValue};
use vstd::prelude::*;

verus! {

/// Something that the parser would have accepted at the place of an error.
#[derive(Debug, PartialEq, Eq)]
pub enum Pattern {
    /// A named part of the grammar, such as `identifier`.
    Label(String),
    /// A particular token.
    Token(Token),
    /// The end of the input.
    EndOfInput,
}

/// The mathematical value of a [`Pattern`].
pub enum PatternValue {
    /// A named part of the grammar.
    Label(Seq<char>),
    /// A particular token.
    Token(TokenValue),
    /// The end of the input.
    EndOfInput,
}

impl View for Pattern {
    type V = PatternValue;

    open spec fn view(&self) -> PatternValue {
        match self {
            Pattern::Label(l) => PatternValue::Label(l@),
            Pattern::Token(t) => PatternValue::Token(t@),
            Pattern::EndOfInput => PatternValue::EndOfInput,
        }
    }
}

/// A semantic rule of PRISM that the source violates although it fits the grammar.
#[derive(Debug, PartialEq)]
pub enum ValidationError {
    /// The model type is not supported.
    UnsupportedModelType {
        /// The name of the unsupported model type.
        model_type: String,
        /// Where the model type is declared.
        span: FullSpan,
    },
    /// Two elements of the same kind have the same name.
    DuplicateElement {
        /// Where an element with this name is first declared.
        previous_occurrence: FullSpan,
        /// Where another element with this name is declared.
        new_definition: FullSpan,
        /// The kind of the elements.
        kind: ElementKind,
    },
    /// An identifier is not a legal name.
    InvalidIdentifierName {
        /// Where the identifier stands.
        span: FullSpan,
        /// Why the name is not legal.
        reason: InvalidName,
    },
    /// The model does not declare its type.
    MissingModelType,
    /// The model declares its type twice.
    DuplicateModelType {
        /// Where the type is declared first.
        first_occurrence: FullSpan,
        /// Where the type is declared again.
        duplicate_occurrence: FullSpan,
    },
    /// The model has two initial-state constraints.
    DuplicateInitConstraint {
        /// The first constraint, with `init` and `endinit`.
        first_occurrence: FullSpan,
        /// The expression of the first constraint.
        first_occurrence_inner: FullSpan,
        /// The second constraint, with `init` and `endinit`.
        duplicate_occurrence: FullSpan,
        /// The expression of the second constraint.
        duplicate_occurrence_inner: FullSpan,
    },
    /// Formulas depend on each other cyclically.
    CyclicFormulaDependency {
        /// The cycle of dependencies between the formulas.
        cycle: CyclicDependency<FullSpan>,
    },
    /// A renamed module could not be expanded.
    ModuleExpansion {
        /// Why the renamed module could not be expanded.
        error: ModuleExpansionError<FullSpan>,
    },
    /// A name refers to no variable, constant or formula.
    UnknownVariable {
        /// The unknown name.
        identifier: Identifier<FullSpan>,
    },
}

/// An error produced while reading PRISM source text.
#[derive(Debug, PartialEq)]
#[allow(inconsistent_fields)]
pub enum ParserError {
    /// No token starts at `span`, where the character `found` stands (`None` at the end of the
    /// input).
    UnexpectedCharacter {
        /// The span of the offending character.
        span: FullSpan,
        /// The character found there.
        found: Option<char>,
    },
    /// The tokens do not fit the grammar: at `span`, one of `expected` would have been
    /// accepted, and `found` stands there (`None` at the end of the input).
    ExpectedFound {
        /// Where the unexpected token was found.
        span: FullSpan,
        /// What would have been accepted there.
        expected: Vec<Pattern>,
        /// The token found, or `None` at the end of the input.
        found: Option<Token>,
        /// A hint for the reader (see [`help_for`]).
        help: Option<String>,
    },
    /// The source fits the grammar, but a semantic rule of PRISM is violated.
    Validation(ValidationError),
}

/// The mathematical description of a [`ParserError`].
#[allow(inconsistent_fields)]
pub enum ParserErrorValue {
    /// See [`ParserError::UnexpectedCharacter`].
    UnexpectedCharacter { span: Option<(usize, usize)>, found: Option<char> },
    /// See [`ParserError::ExpectedFound`].
    ExpectedFound {
        span: Option<(usize, usize)>,
        expected: Seq<PatternValue>,
        found: Option<TokenValue>,
    },
    /// See [`ValidationError::UnsupportedModelType`].
    UnsupportedModelType { model_type: Seq<char>, span: Option<(usize, usize)> },
    /// See [`ValidationError::DuplicateElement`].
    DuplicateElement {
        previous_occurrence: Option<(usize, usize)>,
        new_definition: Option<(usize, usize)>,
        kind: ElementKind,
    },
    /// See [`ValidationError::InvalidIdentifierName`]: the identifier `name` at `span` is not a
    /// legal name.
    InvalidIdentifierName { span: Option<(usize, usize)>, name: Seq<char> },
    /// See [`ValidationError::MissingModelType`].
    MissingModelType,
    /// See [`ValidationError::DuplicateModelType`].
    DuplicateModelType { first_occurrence: Option<(usize, usize)>, duplicate_occurrence: Option<(usize, usize)> },
    /// See [`ValidationError::DuplicateInitConstraint`].
    DuplicateInitConstraint {
        first_occurrence: Option<(usize, usize)>,
        first_occurrence_inner: Option<(usize, usize)>,
        duplicate_occurrence: Option<(usize, usize)>,
        duplicate_occurrence_inner: Option<(usize, usize)>,
    },
}

/// The views of a list of patterns.
pub open spec fn patterns_view(p: Seq<Pattern>) -> Seq<PatternValue> {
    p.map_values(|x: Pattern| x@)
}

/// The hint given with an error at which only `expected` would have been accepted: where only
/// an opening bracket would do, a reserved word (such as a function's name) most likely stands
/// where a name was meant.
pub open spec fn help_for(expected: Seq<PatternValue>) -> Option<Seq<char>> {
    if expected == seq![PatternValue::Token(TokenValue::LeftBracket)] {
        Some("This error is often caused by using variables with reserved names"@)
    } else {
        None
    }
}

/// The hint for an error at which only `expected` would have been accepted (see [`help_for`]).
pub fn help_for_expected(expected: &Vec<Pattern>) -> (r: Option<String>)
    ensures
        match (r, help_for(patterns_view(expected@))) {
            (Some(a), Some(b)) => a@ == b,
            (None, None) => true,
            _ => false,
        },
{
    if expected.len() == 1 {
        match &expected[0] {
            Pattern::Token(Token::LeftBracket) => {
                assert(patterns_view(expected@) =~= seq![PatternValue::Token(TokenValue::LeftBracket)]);
                return Some(String::from_str("This error is often caused by using variables with reserved names"));
            },
            _ => {
                assert(patterns_view(expected@)[0] == expected@[0]@);
                assert(expected@[0]@ != PatternValue::Token(TokenValue::LeftBracket));
            },
        }
    }
    assert(patterns_view(expected@) != seq![PatternValue::Token(TokenValue::LeftBracket)]) by {
        if expected@.len() == 1 {
            assert(patterns_view(expected@)[0] == expected@[0]@);
        } else {
            assert(patterns_view(expected@).len() != 1);
        }
    }
    None
}

/// Whether the error `e` is the one that `v` describes.
pub open spec fn describes_error(e: ParserError, v: ParserErrorValue) -> bool {
    match v {
        ParserErrorValue::UnexpectedCharacter { span, found } => e matches ParserError::UnexpectedCharacter {
            span: s,
            found: f,
        } && s.spec_range() == span && f == found,
        ParserErrorValue::ExpectedFound { span, expected, found } => e matches ParserError::ExpectedFound {
            span: s,
            expected: x,
            found: f,
            help: h,
        } && s.spec_range() == span && patterns_view(x@) == expected && match (f, found) {
            (Some(a), Some(b)) => a@ == b,
            (None, None) => true,
            _ => false,
        } && match (h, help_for(expected)) {
            (Some(a), Some(b)) => a@ == b,
            (None, None) => true,
            _ => false,
        },
        ParserErrorValue::UnsupportedModelType { model_type, span } => e matches ParserError::Validation(
            ValidationError::UnsupportedModelType { model_type: m, span: s },
        ) && m@ == model_type && s.spec_range() == span,
        ParserErrorValue::DuplicateElement { previous_occurrence, new_definition, kind } => e matches ParserError::Validation(
            ValidationError::DuplicateElement { previous_occurrence: p, new_definition: n, kind: k },
        ) && p.spec_range() == previous_occurrence && n.spec_range() == new_definition && k
            == kind,
        ParserErrorValue::InvalidIdentifierName { span, name } => e matches ParserError::Validation(
            ValidationError::InvalidIdentifierName { span: s, reason },
        ) && s.spec_range() == span && matches_name_error(reason, name, false),
        ParserErrorValue::MissingModelType => e matches ParserError::Validation(
            ValidationError::MissingModelType,
        ),
        ParserErrorValue::DuplicateModelType { first_occurrence, duplicate_occurrence } => e matches ParserError::Validation(
            ValidationError::DuplicateModelType { first_occurrence: f, duplicate_occurrence: d },
        ) && f.spec_range() == first_occurrence && d.spec_range() == duplicate_occurrence,
        ParserErrorValue::DuplicateInitConstraint {
            first_occurrence,
            first_occurrence_inner,
            duplicate_occurrence,
            duplicate_occurrence_inner,
        } => e matches ParserError::Validation(
            ValidationError::DuplicateInitConstraint {
                first_occurrence: a,
                first_occurrence_inner: b,
                duplicate_occurrence: c,
                duplicate_occurrence_inner: d,
            },
        ) && a.spec_range() == first_occurrence && b.spec_range() == first_occurrence_inner
            && c.spec_range() == duplicate_occurrence && d.spec_range() == duplicate_occurrence_inner,
    }
}

impl ParserError {
    /// The parser error for a lexer error.
    pub fn from_lex_error(e: LexError) -> (r: ParserError)
        ensures
            describes_error(
                r,
                ParserErrorValue::UnexpectedCharacter { span: e.span.spec_range(), found: e.found },
            ),
    {
        ParserError::UnexpectedCharacter { span: e.span, found: e.found }
    }

    /// The parser errors for the lexer errors `errors`, in order.
    pub fn from_lex_errors(errors: Vec<LexError>) -> (r: Vec<ParserError>)
        ensures
            describes_lex_failures(r@, errors@.map_values(|e: LexError| (e.span.spec_range(), e.found))),
    {
        let ghost all = errors@;
        let mut rest = errors;
        let mut out: Vec<ParserError> = Vec::new();
        let ghost mut n: int = 0;
        while rest.len() > 0
            invariant
                0 <= n <= all.len(),
                rest@ == all.skip(n),
                out@.len() == n,
                forall|i: int| 0 <= i < n ==> describes_error(
                    #[trigger] out@[i],
                    ParserErrorValue::UnexpectedCharacter { span: all[i].span.spec_range(), found: all[i].found },
                ),
            decreases rest@.len(),
        {
            let e = rest.remove(0);
            proof {
                assert(all.skip(n)[0] == all[n]);
                assert(all.skip(n).drop_first() =~= all.skip(n + 1));
            }
            out.push(ParserError::from_lex_error(e));
            proof {
                n = n + 1;
            }
        }
        out
    }
}

/// The errors `es` report, in order, the characters at which lexing failed: `vs` holds the span
/// and the character of each (see [`lex_errors`](crate::lexer::lex_errors)).
pub open spec fn describes_lex_failures(es: Seq<ParserError>, vs: Seq<(Option<(usize, usize)>, Option<char>)>) -> bool {
    &&& es.len() == vs.len()
    &&& forall|i: int|
        0 <= i < vs.len() ==> describes_error(
            #[trigger] es[i],
            ParserErrorValue::UnexpectedCharacter { span: vs[i].0, found: vs[i].1 },
        )
}

} // verus!
