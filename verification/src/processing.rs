//! Turns a model read from source text into a processed model: formulas substituted, renamed
//! modules expanded and variables referred to by index.
use crate::expression_parser::{parses_floats, source_integers_fit};
use crate::expressions::{Expression, UnknownVariableError};
use crate::formula_dependencies::{describes_cycle, dependency_graph, has_dependency_cycle, is_replacement_ordering};
use crate::identifier::Identifier;
use crate::lexer::{lex, lex_errors};
use crate::attribute_parser::input_end;
use crate::expression_parser::float_values;
use crate::model::Model;
use crate::model_indexing::{model_errors, model_indexed};
use crate::model_maps::{model_parts_mapped, same};
use crate::indexing::error_identifiers;
use crate::normalisation::{expansion_chain, expansion_failure, substituted_formulas, ModuleExpansionError};
use crate::parse_error::{describes_lex_failures, ParserError, ValidationError};
use crate::program_parser::{parse_unprocessed_model, program_outcome, UnprocessedModel};
use crate::spans::FullSpan;
use crate::variables::VariableReference;
use vstd::prelude::*;

verus! {

/// A model whose expressions refer to variables by [`VariableReference`].
pub type ProcessedModel = Model<VariableReference, FullSpan, Expression<VariableReference, FullSpan>, Identifier<FullSpan>>;

/// The formulas of `a` do not depend on each other cyclically, and `b` is `a` with every formula
/// substituted and the formulas removed (see
/// [`Model::substitute_formulas`](crate::model::Model::substitute_formulas)).
pub open spec fn formulas_substituted(a: UnprocessedModel, b: UnprocessedModel) -> bool {
    let graph = dependency_graph(a.formulas.formulas@);
    &&& !has_dependency_cycle(graph)
    &&& b.formulas.formulas@.len() == 0
    &&& exists|order: Seq<usize>|
        is_replacement_ordering(graph, order) && #[trigger] model_parts_mapped(
            a,
            b,
            same(),
            substituted_formulas(a.formulas.formulas@, order),
        )
}

/// Expanding the renamed modules of `a` leads to `b` and gives `r` (see
/// [`Model::expand_renamed_modules`](crate::model::Model::expand_renamed_modules)).
pub open spec fn modules_expanded(
    a: UnprocessedModel,
    b: UnprocessedModel,
    r: Result<(), ModuleExpansionError<FullSpan>>,
) -> bool {
    &&& b.renamed_modules@.len() == 0
    &&& b.model_type == a.model_type
    &&& b.formulas == a.formulas
    &&& b.init_constraint == a.init_constraint
    &&& b.labels == a.labels
    &&& b.rewards == a.rewards
    &&& b.span == a.span
    &&& exists|
        vchain: Seq<Seq<crate::variables::VariableInfo<FullSpan, Expression<Identifier<FullSpan>, FullSpan>>>>,
        mchain: Seq<Seq<crate::module::Module<Identifier<FullSpan>, FullSpan, Expression<Identifier<FullSpan>, FullSpan>, Identifier<FullSpan>>>>,
        k: int,
    |
        {
            &&& #[trigger] expansion_chain(vchain, mchain, a.renamed_modules@, k)
            &&& vchain[0] == a.variable_manager.variables@
            &&& mchain[0] == a.modules.modules@
            &&& match r {
                Ok(()) => k == a.renamed_modules@.len() && b.variable_manager.variables@ == vchain[k]
                    && b.modules.modules@ == mchain[k],
                Err(e) => k < a.renamed_modules@.len() && expansion_failure(
                    vchain[k],
                    mchain[k],
                    a.renamed_modules@[k],
                    e,
                    b.variable_manager.variables@,
                    b.modules.modules@,
                ),
            }
        }
}

/// The errors `es` report the unknown names `ids`, in order.
pub open spec fn reports_unknown(es: Seq<ParserError>, ids: Seq<Identifier<FullSpan>>) -> bool {
    &&& es.len() == ids.len()
    &&& forall|i: int|
        0 <= i < ids.len() ==> #[trigger] es[i] == ParserError::Validation(
            ValidationError::UnknownVariable { identifier: ids[i] },
        )
}

/// What processing the model `a` gives: a cycle of formulas is reported alone; otherwise the
/// formulas are substituted and the renamed modules expanded, a failed expansion is reported
/// alone, and then every unknown name is reported, or the model with variables referred to by
/// index is the result.
pub open spec fn processing_outcome(a: UnprocessedModel, r: Result<ProcessedModel, Vec<ParserError>>) -> bool {
    let graph = dependency_graph(a.formulas.formulas@);
    if has_dependency_cycle(graph) {
        r matches Err(es) && es@.len() == 1 && (es@[0] matches ParserError::Validation(
            ValidationError::CyclicFormulaDependency { cycle },
        ) && describes_cycle(a.formulas.formulas@, graph, cycle.entries@))
    } else {
        exists|b: UnprocessedModel, c: UnprocessedModel, x: Result<(), ModuleExpansionError<FullSpan>>|
            #[trigger] formulas_substituted(a, b) && #[trigger] modules_expanded(b, c, x) && match x {
                Err(e) => r matches Err(es) && es@ == seq![
                    ParserError::Validation(ValidationError::ModuleExpansion { error: e }),
                ],
                Ok(()) => match r {
                    Ok(m) => model_errors(c).len() == 0 && model_indexed(c, m),
                    Err(es) => model_errors(c).len() > 0 && reports_unknown(es@, model_errors(c)),
                },
            }
    }
}

/// The errors that report the unknown names of `unknown`, in order.
pub(crate) fn unknown_variable_errors(unknown: Vec<UnknownVariableError<FullSpan>>) -> (r: Vec<ParserError>)
    ensures
        reports_unknown(r@, error_identifiers(unknown@)),
{
    let ghost all = error_identifiers(unknown@);
    let mut errors: Vec<ParserError> = Vec::new();
    let mut rest = unknown;
    let ghost mut n: int = 0;
    while rest.len() > 0
        invariant
            0 <= n <= all.len(),
            error_identifiers(rest@) == all.skip(n),
            reports_unknown(errors@, all.take(n)),
        decreases rest@.len(),
    {
        let ghost before = rest@;
        let e = rest.remove(0);
        proof {
            assert(error_identifiers(before).len() == before.len());
            assert(all.skip(n).len() == all.len() - n);
            assert(error_identifiers(before)[0] == e.identifier);
            assert(all.skip(n)[0] == all[n]);
            assert forall|i: int| 0 <= i < rest@.len() implies error_identifiers(rest@)[i] == all.skip(n + 1)[i] by {
                assert(rest@[i] == before[i + 1]);
                assert(error_identifiers(before)[i + 1] == all.skip(n)[i + 1]);
            }
            assert(error_identifiers(rest@) =~= all.skip(n + 1));
            assert(all.take(n + 1) =~= all.take(n).push(e.identifier));
        }
        errors.push(ParserError::Validation(ValidationError::UnknownVariable { identifier: e.identifier }));
        proof {
            n = n + 1;
        }
    }
    assert(all.take(n) =~= all);
    errors
}

/// Processes a model read from source text: substitutes its formulas, expands its renamed
/// modules and refers to its variables by index; see [`processing_outcome`].
pub fn process_model(model: UnprocessedModel) -> (r: Result<ProcessedModel, Vec<ParserError>>)
    ensures
        processing_outcome(model, r),
{
    let ghost a = model;
    let mut model = model;
    match model.substitute_formulas() {
        Ok(_) => {},
        Err(cycle) => {
            let mut errors = Vec::new();
            errors.push(ParserError::Validation(ValidationError::CyclicFormulaDependency { cycle }));
            return Err(errors);
        },
    }
    let ghost b = model;
    let x = model.expand_renamed_modules();
    let ghost c = model;
    assert(formulas_substituted(a, b));
    assert(modules_expanded(b, c, x));
    match x {
        Ok(_) => {},
        Err(error) => {
            let mut errors = Vec::new();
            errors.push(ParserError::Validation(ValidationError::ModuleExpansion { error }));
            assert(errors@ =~= seq![ParserError::Validation(ValidationError::ModuleExpansion { error })]);
            return Err(errors);
        },
    }
    match model.replace_identifiers_by_variable_indices() {
        Ok(m) => Ok(m),
        Err(unknown) => Err(unknown_variable_errors(unknown)),
    }
}

/// Reads the model in `source` and processes it, floating-point literals being read by
/// `floats`: the errors of reading are returned if there are any; otherwise the result of
/// [`process_model`] on the model read.
pub fn parse_model<P: Fn(&str) -> u64>(source: &str, floats: &P) -> (r: Result<ProcessedModel, Vec<ParserError>>)
    requires
        parses_floats(*floats),
        source_integers_fit(source@),
    ensures
        lex(source@) is Err ==> (r matches Err(es) && describes_lex_failures(es@, lex_errors(source@))),
        lex(source@) is Ok ==> (exists|m: UnprocessedModel, es: Seq<ParserError>|
            #[trigger] program_outcome(lex(source@)->Ok_0, input_end(source@), float_values(*floats), m, es) && if es.len() == 0 {
                processing_outcome(m, r)
            } else {
                r matches Err(rs) && rs@ == es
            }),
{
    match parse_unprocessed_model(source, floats) {
        Err(errors) => {
            proof {
                if lex(source@) is Ok {
                    let toks = lex(source@)->Ok_0;
                    let m = choose|m: UnprocessedModel|
                        program_outcome(toks, input_end(source@), float_values(*floats), m, errors@);
                    assert(program_outcome(toks, input_end(source@), float_values(*floats), m, errors@));
                }
            }
            Err(errors)
        },
        Ok(model) => {
            let r = process_model(model);
            proof {
                if lex(source@) is Ok {
                    assert(program_outcome(
                        lex(source@)->Ok_0,
                        input_end(source@),
                        float_values(*floats),
                        model,
                        Seq::<ParserError>::empty(),
                    ));
                }
            }
            r
        },
    }
}

} // verus!
