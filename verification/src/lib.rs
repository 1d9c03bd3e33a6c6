//! A verified library for the PRISM modelling language: models and queries (properties) about
//! them, the transformations that normalise a model (formula expansion, renamed-module
//! expansion, variable indexing), and the reader that turns source text into tokens, models and
//! queries, reporting every error it finds.

pub mod spans;
pub use spans::{FullSpan, Span};
pub mod identifier;
pub use identifier::{Identifier, InvalidName};
pub mod module;
pub use module::{RenameRule, RenameRules};
pub mod expressions;
pub mod expression_maps;
pub mod names;
pub mod variables;
pub mod indexing;
pub mod command;
pub mod labels;
pub mod formulas;
pub mod formula_dependencies;
pub mod substitution;
pub mod substitution_laws;
pub mod expression_laws;
pub mod rewards;
pub mod actions;
pub mod variable_index;
pub mod model;
pub mod model_maps;
pub mod model_indexing;
pub mod normalisation;
pub mod model_actions;
pub mod initial_states;
pub mod attributes;
pub mod text;
pub mod character_to_line;
pub mod errors;
pub mod token;
pub mod lexer;
pub mod parse_error;
pub mod attribute_parser;
pub mod display;
pub mod expression_parser;
pub mod declaration_parser;
pub mod module_parser;
pub mod program_parser;
pub mod processing;
pub mod parsing_laws;
pub mod reading_laws;
pub mod properties;
pub mod query_processing;
pub mod property_parser;
pub mod outputs;
pub use variables::{
    MissingVariableRenaming, VariableAddError, VariableInfo, VariableManager, VariablePrintingStyle,
    VariableRange, VariableReference,
};
pub use expressions::{Duplicate, Expression, UnknownVariableError};
pub use character_to_line::CharacterToLineMap;
pub use errors::{ElementKind, ErrorSource};
pub use outputs::{
    parse_model_and_prop, parse_model_and_props, parse_unprocessed_model_and_prop, parse_unprocessed_model_and_props,
    ErrorWithSource, ModelAndProp, ModelAndPropResult, ModelAndProps, ModelAndPropsResult,
};
pub use parse_error::{ParserError, ValidationError};
pub use processing::parse_model;
pub use program_parser::parse_unprocessed_model;
pub use token::Token;
