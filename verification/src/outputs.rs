//! Reading a model together with queries about it, and combining the results.
use crate::errors::ErrorSource;
use crate::expression_parser::{float_values, parses_floats, source_integers_fit};
use crate::expressions::Expression;
use crate::formula_dependencies::{dependency_graph, describes_cycle, has_dependency_cycle, is_replacement_ordering};
use crate::identifier::Identifier;
use crate::normalisation::substituted_formulas;
use crate::parse_error::{ParserError, ValidationError};
use crate::processing::{process_model, processing_outcome, reports_unknown, unknown_variable_errors, ProcessedModel};
use crate::program_parser::{parse_unprocessed_model, parsed_model, UnprocessedModel};
use crate::properties::{query_exprs, query_mapped, Query};
use crate::property_parser::{parse_unprocessed_query, parsed_query};
use crate::query_processing::{indexed_by, labels_substituted, query_unknowns};
use crate::spans::FullSpan;
use crate::variables::{variable_names, VariableReference};
use vstd::prelude::*;

verus! {

/// A query whose expressions refer to variables by name.
pub type UnprocessedQuery = Query<Expression<Identifier<FullSpan>, FullSpan>>;

/// A query whose expressions refer to variables by [`VariableReference`].
pub type ProcessedQuery = Query<Expression<VariableReference, FullSpan>>;

/// An error together with the part of the input it comes from.
#[derive(Debug, PartialEq)]
pub struct ErrorWithSource {
    /// The model, or the query with the given index.
    pub source: ErrorSource,
    /// The error.
    pub error: ParserError,
}

impl ErrorWithSource {
    /// An error of the model.
    pub fn model(error: ParserError) -> (r: Self)
        ensures
            r == (ErrorWithSource { source: ErrorSource::Model, error }),
    {
        ErrorWithSource { source: ErrorSource::Model, error }
    }

    /// An error of the query with the given index.
    pub fn property(error: ParserError, property_index: usize) -> (r: Self)
        ensures
            r == (ErrorWithSource { source: ErrorSource::Property { index: property_index }, error }),
    {
        ErrorWithSource { source: ErrorSource::Property { index: property_index }, error }
    }
}

/// The results of reading a model and several queries: each has its own result.
pub struct ModelAndPropsResult<M, Q> {
    /// The model, or the errors met while reading it.
    pub model: Result<M, Vec<ParserError>>,
    /// Each query, or the errors met while reading it.
    pub properties: Vec<Result<Q, Vec<ParserError>>>,
}

/// The results of reading a model and one query.
pub struct ModelAndPropResult<M, Q> {
    /// The model, or the errors met while reading it.
    pub model: Result<M, Vec<ParserError>>,
    /// The query, or the errors met while reading it.
    pub property: Result<Q, Vec<ParserError>>,
}

/// A model and several queries, all read without error.
pub struct ModelAndProps<M, Q> {
    /// The model.
    pub model: M,
    /// The queries.
    pub properties: Vec<Q>,
}

/// A model and one query, both read without error.
pub struct ModelAndProp<M, Q> {
    /// The model.
    pub model: M,
    /// The query.
    pub property: Q,
}

/// The errors `es`, each with the given source.
pub open spec fn tagged(es: Seq<ParserError>, source: ErrorSource) -> Seq<ErrorWithSource> {
    es.map_values(|e: ParserError| ErrorWithSource { source, error: e })
}

/// The errors of a result (none for a success), each with the given source.
pub open spec fn result_errors<T>(r: Result<T, Vec<ParserError>>, source: ErrorSource) -> Seq<ErrorWithSource> {
    match r {
        Ok(_) => seq![],
        Err(es) => tagged(es@, source),
    }
}

/// The errors of the query results `ps`, each tagged with its query's index, query after query.
pub open spec fn properties_errors<Q>(ps: Seq<Result<Q, Vec<ParserError>>>) -> Seq<ErrorWithSource>
    decreases ps.len(),
{
    if ps.len() == 0 {
        seq![]
    } else {
        properties_errors(ps.drop_last()) + result_errors(
            ps.last(),
            ErrorSource::Property { index: (ps.len() - 1) as usize },
        )
    }
}

/// Appends the errors of `r`, with the given source, to `out`.
fn push_errors<T>(out: &mut Vec<ErrorWithSource>, r: Result<T, Vec<ParserError>>, source: ErrorSource)
    ensures
        final(out)@ == old(out)@ + result_errors(r, source),
{
    match r {
        Ok(_) => {
            assert(old(out)@ + result_errors(r, source) =~= old(out)@);
        },
        Err(es) => {
            let ghost all = es@;
            let mut rest = es;
            let ghost start = out@;
            let ghost mut n: int = 0;
            while rest.len() > 0
                invariant
                    0 <= n <= all.len(),
                    rest@ == all.skip(n),
                    out@ == start + tagged(all.take(n), source),
                decreases rest@.len(),
            {
                let e = rest.remove(0);
                proof {
                    assert(all.skip(n).drop_first() =~= all.skip(n + 1));
                    assert(tagged(all.take(n + 1), source) =~= tagged(all.take(n), source).push(
                        ErrorWithSource { source, error: e },
                    ));
                    n = n + 1;
                }
                out.push(ErrorWithSource { source, error: e });
            }
            assert(all.take(n) =~= all);
        },
    }
}

impl<M, Q> ModelAndPropsResult<M, Q> {
    /// The model and all queries if every result is a success; otherwise every error, those of
    /// the model first, then those of each query in turn, each with its source.
    pub fn all_ok(self) -> (r: Result<ModelAndProps<M, Q>, Vec<ErrorWithSource>>)
        requires
            self.properties@.len() <= usize::MAX,
        ensures
            r is Ok <==> self.model is Ok && forall|i: int| 0 <= i < self.properties@.len() ==> #[trigger] self.properties@[i] is Ok,
            r matches Ok(x) ==> x.model == self.model->Ok_0 && x.properties@.len() == self.properties@.len()
                && forall|i: int| 0 <= i < self.properties@.len() ==> x.properties@[i] == #[trigger] self.properties@[i]->Ok_0,
            r matches Err(es) ==> es@ == result_errors(self.model, ErrorSource::Model) + properties_errors(self.properties@),
    {
        let ghost props = self.properties@;
        let mut errors: Vec<ErrorWithSource> = Vec::new();
        let model = self.model;
        let ghost m = model;
        let model_value = match model {
            Ok(m) => {
                assert(errors@ =~= result_errors(Ok::<M, Vec<ParserError>>(m), ErrorSource::Model));
                Some(m)
            },
            Err(es) => {
                push_errors(&mut errors, Err::<M, Vec<ParserError>>(es), ErrorSource::Model);
                assert(errors@ =~= result_errors(m, ErrorSource::Model));
                None
            },
        };
        let mut rest = self.properties;
        let mut properties: Vec<Q> = Vec::new();
        let mut all_ok = true;
        let mut index: usize = 0;
        assert(props.take(0) =~= seq![]);
        while rest.len() > 0
            invariant
                index <= props.len(),
                props.len() <= usize::MAX,
                rest@ == props.skip(index as int),
                errors@ == result_errors(m, ErrorSource::Model) + properties_errors(props.take(index as int)),
                all_ok <==> forall|i: int| 0 <= i < index ==> #[trigger] props[i] is Ok,
                all_ok ==> properties@.len() == index && forall|i: int| 0 <= i < index ==> properties@[i] == #[trigger] props[i]->Ok_0,
            decreases rest@.len(),
        {
            let p = rest.remove(0);
            proof {
                assert(props.skip(index as int).drop_first() =~= props.skip(index + 1));
                assert(props[index as int] == p);
                assert(props.take(index + 1).drop_last() =~= props.take(index as int));
                assert(props.take(index + 1).last() == p);
            }
            let ghost before = errors@;
            match p {
                Ok(q) => {
                    if all_ok {
                        properties.push(q);
                    }
                    assert(before + result_errors(Ok::<Q, Vec<ParserError>>(q), ErrorSource::Property { index }) =~= before);
                },
                Err(es) => {
                    all_ok = false;
                    push_errors(&mut errors, Err::<Q, Vec<ParserError>>(es), ErrorSource::Property { index });
                },
            }
            proof {
                assert(result_errors(m, ErrorSource::Model) + properties_errors(props.take(index + 1)) =~= before
                    + result_errors(props[index as int], ErrorSource::Property { index }));
            }
            index = index + 1;
        }
        proof {
            assert(props.take(index as int) =~= props);
        }
        match model_value {
            Some(m) => {
                if all_ok {
                    return Ok(ModelAndProps { model: m, properties });
                }
            },
            None => {},
        }
        Err(errors)
    }
}

impl<M, Q> ModelAndPropResult<M, Q> {
    /// The model and the query if both results are successes; otherwise the errors of the model,
    /// then those of the query (with index 0), each with its source.
    pub fn all_ok(self) -> (r: Result<ModelAndProp<M, Q>, Vec<ErrorWithSource>>)
        ensures
            r is Ok <==> self.model is Ok && self.property is Ok,
            r matches Ok(x) ==> x.model == self.model->Ok_0 && x.property == self.property->Ok_0,
            r matches Err(es) ==> es@ == result_errors(self.model, ErrorSource::Model) + result_errors(
                self.property,
                ErrorSource::Property { index: 0 },
            ),
    {
        let ghost m0 = self.model;
        let ghost p0 = self.property;
        match (self.model, self.property) {
            (Ok(model), Ok(property)) => Ok(ModelAndProp { model, property }),
            (model, property) => {
                let mut errors: Vec<ErrorWithSource> = Vec::new();
                push_errors(&mut errors, model, ErrorSource::Model);
                push_errors(&mut errors, property, ErrorSource::Property { index: 0 });
                assert(errors@ =~= result_errors(m0, ErrorSource::Model) + result_errors(
                    p0,
                    ErrorSource::Property { index: 0 },
                ));
                Err(errors)
            },
        }
    }
}

/// The errors `es` are a copy of `r`'s errors.
pub open spec fn same_errors<T, U>(r: Result<T, Vec<ParserError>>, es: Seq<ParserError>) -> bool {
    r matches Err(x) && x@ == es
}

/// The processed model `r` is what processing gives for the reading result `u`: the errors of
/// reading are kept; a model read is processed (see [`processing_outcome`]).
pub open spec fn model_result(u: Result<UnprocessedModel, Vec<ParserError>>, r: Result<ProcessedModel, Vec<ParserError>>) -> bool {
    match u {
        Err(es) => r matches Err(x) && x@ == es@,
        Ok(m) => processing_outcome(m, r),
    }
}

/// Substituting the formulas `fs` into the query `q` gives `r`: a query without expressions is
/// kept; otherwise a cycle of formulas is reported alone, or the formulas are substituted.
pub open spec fn formulas_outcome(
    q: UnprocessedQuery,
    fs: Seq<crate::formulas::Formula<FullSpan, Expression<Identifier<FullSpan>, FullSpan>>>,
    r: Result<UnprocessedQuery, Vec<ParserError>>,
) -> bool {
    let graph = dependency_graph(fs);
    if query_exprs(q).len() == 0 {
        r == Ok::<UnprocessedQuery, Vec<ParserError>>(q)
    } else if has_dependency_cycle(graph) {
        r matches Err(es) && es@.len() == 1 && (es@[0] matches ParserError::Validation(
            ValidationError::CyclicFormulaDependency { cycle },
        ) && describes_cycle(fs, graph, cycle.entries@))
    } else {
        r matches Ok(q2) && exists|order: Seq<usize>|
            is_replacement_ordering(graph, order) && #[trigger] query_mapped(q, q2, substituted_formulas(fs, order))
    }
}

/// Preparing the query result `pu` for the model result `u` gives `r`: errors of the query are
/// kept; a query of a model that could not be read gives no error of its own; otherwise the
/// model's labels, then its formulas, are substituted into the query.
pub open spec fn prepared(
    u: Result<UnprocessedModel, Vec<ParserError>>,
    pu: Result<UnprocessedQuery, Vec<ParserError>>,
    r: Result<UnprocessedQuery, Vec<ParserError>>,
) -> bool {
    match (u, pu) {
        (_, Err(es)) => r matches Err(x) && x@ == es@,
        (Err(_), Ok(_)) => r matches Err(x) && x@.len() == 0,
        (Ok(m), Ok(q)) => exists|q1: UnprocessedQuery|
            #[trigger] query_mapped(q, q1, labels_substituted(m.labels)) && formulas_outcome(q1, m.formulas.formulas@, r),
    }
}

/// Indexing the prepared query result `pq` with the processed model result `rm` gives `r`:
/// errors of the query are kept; a query of a model that could not be processed gives no error
/// of its own; otherwise every unknown name is reported, or the query refers to the model's
/// variables by index.
pub open spec fn indexed(
    rm: Result<ProcessedModel, Vec<ParserError>>,
    pq: Result<UnprocessedQuery, Vec<ParserError>>,
    r: Result<ProcessedQuery, Vec<ParserError>>,
) -> bool {
    match (rm, pq) {
        (_, Err(es)) => r matches Err(x) && x@ == es@,
        (Err(_), Ok(_)) => r matches Err(x) && x@.len() == 0,
        (Ok(m), Ok(q)) => {
            let names = variable_names(m.variable_manager.variables@);
            if query_unknowns(q, names).len() == 0 {
                r matches Ok(x) && query_mapped(q, x, indexed_by(names))
            } else {
                r matches Err(es) && reports_unknown(es@, query_unknowns(q, names))
            }
        },
    }
}

/// Substitutes the labels and formulas of the model into the query; see [`prepared`].
pub fn substitute_labels_and_formulas_in_property(
    model: &Result<UnprocessedModel, Vec<ParserError>>,
    property: Result<UnprocessedQuery, Vec<ParserError>>,
) -> (r: Result<UnprocessedQuery, Vec<ParserError>>)
    ensures
        prepared(*model, property, r),
{
    let ghost pu = property;
    let (model, property) = match (model, property) {
        (Ok(model), Ok(property)) => (model, property),
        (_, Err(errs)) => {
            return Err(errs);
        },
        (Err(_), _) => {
            return Err(Vec::new());
        },
    };
    let q1 = property.substitute_labels(&model.labels);
    match q1.substitute_formulas(&model.formulas) {
        Ok(q2) => Ok(q2),
        Err(cycle) => {
            let mut errors = Vec::new();
            errors.push(ParserError::Validation(ValidationError::CyclicFormulaDependency { cycle }));
            Err(errors)
        },
    }
}

/// Refers the query to the variables of the processed model by index; see [`indexed`].
pub fn replace_identifiers_by_variable_indices_in_property(
    model: &Result<ProcessedModel, Vec<ParserError>>,
    property: Result<UnprocessedQuery, Vec<ParserError>>,
) -> (r: Result<ProcessedQuery, Vec<ParserError>>)
    ensures
        indexed(*model, property, r),
{
    let (model, property) = match (model, property) {
        (Ok(model), Ok(property)) => (model, property),
        (_, Err(errs)) => {
            return Err(errs);
        },
        (Err(_), _) => {
            return Err(Vec::new());
        },
    };
    match property.replace_identifiers_by_variable_indices(&model.variable_manager) {
        Ok(q) => Ok(q),
        Err(unknown) => Err(unknown_variable_errors(unknown)),
    }
}

/// Every text of `sources` satisfies [`source_integers_fit`].
pub open spec fn all_integers_fit(sources: Seq<&str>) -> bool {
    forall|i: int| 0 <= i < sources.len() ==> source_integers_fit(#[trigger] sources[i]@)
}

/// Reads the queries of `properties`, each on its own; see [`parsed_query`].
fn parse_properties<P: Fn(&str) -> u64>(properties: &[&str], floats: &P) -> (r: Vec<Result<UnprocessedQuery, Vec<ParserError>>>)
    requires
        parses_floats(*floats),
        all_integers_fit(properties@),
    ensures
        r@.len() == properties@.len(),
        forall|i: int| 0 <= i < properties@.len() ==> parsed_query(properties@[i]@, float_values(*floats), #[trigger] r@[i]),
{
    let mut out: Vec<Result<UnprocessedQuery, Vec<ParserError>>> = Vec::new();
    let mut i: usize = 0;
    while i < properties.len()
        invariant
            parses_floats(*floats),
            all_integers_fit(properties@),
            i <= properties@.len(),
            out@.len() == i,
            forall|k: int| 0 <= k < i ==> parsed_query(properties@[k]@, float_values(*floats), #[trigger] out@[k]),
        decreases properties@.len() - i,
    {
        let q = parse_unprocessed_query(properties[i], floats);
        out.push(q);
        i = i + 1;
    }
    out
}

/// Reads a model and several queries, without processing; each result stands on its own.
pub fn parse_unprocessed_model_and_props<P: Fn(&str) -> u64>(source: &str, properties: &[&str], floats: &P) -> (r: ModelAndPropsResult<
    UnprocessedModel,
    UnprocessedQuery,
>)
    requires
        parses_floats(*floats),
        source_integers_fit(source@),
        all_integers_fit(properties@),
    ensures
        parsed_model(source@, float_values(*floats), r.model),
        r.properties@.len() == properties@.len(),
        forall|i: int| 0 <= i < properties@.len() ==> parsed_query(properties@[i]@, float_values(*floats), #[trigger] r.properties@[i]),
{
    let model = parse_unprocessed_model(source, floats);
    let properties = parse_properties(properties, floats);
    ModelAndPropsResult { model, properties }
}

/// Reads a model and one query, without processing; each result stands on its own.
pub fn parse_unprocessed_model_and_prop<P: Fn(&str) -> u64>(source: &str, property: &str, floats: &P) -> (r: ModelAndPropResult<
    UnprocessedModel,
    UnprocessedQuery,
>)
    requires
        parses_floats(*floats),
        source_integers_fit(source@),
        source_integers_fit(property@),
    ensures
        parsed_model(source@, float_values(*floats), r.model),
        parsed_query(property@, float_values(*floats), r.property),
{
    let model = parse_unprocessed_model(source, floats);
    let property = parse_unprocessed_query(property, floats);
    ModelAndPropResult { model, property }
}

/// What reading a model and a query and processing both gives, the model read being `u` and
/// the model processed `rm`: the query is read, prepared for `u` (see [`prepared`]) and indexed
/// with `rm` (see [`indexed`]).
pub open spec fn property_outcome(
    u: Result<UnprocessedModel, Vec<ParserError>>,
    rm: Result<ProcessedModel, Vec<ParserError>>,
    s: Seq<char>,
    fl: spec_fn(Seq<char>) -> u64,
    r: Result<ProcessedQuery, Vec<ParserError>>,
) -> bool {
    exists|pu: Result<UnprocessedQuery, Vec<ParserError>>, pq: Result<UnprocessedQuery, Vec<ParserError>>|
        #[trigger] parsed_query(s, fl, pu) && #[trigger] prepared(u, pu, pq) && indexed(rm, pq, r)
}

/// Reads a model and several queries and processes them: the labels and formulas of the model
/// read are substituted into each query, the model is processed, and each query is referred to
/// the processed model's variables.
pub fn parse_model_and_props<P: Fn(&str) -> u64>(source: &str, properties: &[&str], floats: &P) -> (r: ModelAndPropsResult<
    ProcessedModel,
    ProcessedQuery,
>)
    requires
        parses_floats(*floats),
        source_integers_fit(source@),
        all_integers_fit(properties@),
    ensures
        exists|u: Result<UnprocessedModel, Vec<ParserError>>|
            #[trigger] parsed_model(source@, float_values(*floats), u) && model_result(u, r.model)
                && r.properties@.len() == properties@.len() && forall|i: int|
                0 <= i < properties@.len() ==> property_outcome(
                    u,
                    r.model,
                    properties@[i]@,
                    float_values(*floats),
                    #[trigger] r.properties@[i],
                ),
{
    let unprocessed = parse_unprocessed_model_and_props(source, properties, floats);
    let ghost u = unprocessed.model;
    let ghost parsed = unprocessed.properties@;
    let mut prepared_properties: Vec<Result<UnprocessedQuery, Vec<ParserError>>> = Vec::new();
    let mut rest = unprocessed.properties;
    let ghost mut n: int = 0;
    while rest.len() > 0
        invariant
            u == unprocessed.model,
            0 <= n <= parsed.len(),
            rest@ == parsed.skip(n),
            prepared_properties@.len() == n,
            forall|k: int| 0 <= k < n ==> prepared(u, parsed[k], #[trigger] prepared_properties@[k]),
        decreases rest@.len(),
    {
        let p = rest.remove(0);
        proof {
            assert(parsed.skip(n).drop_first() =~= parsed.skip(n + 1));
            assert(parsed[n] == p);
        }
        let q = substitute_labels_and_formulas_in_property(&unprocessed.model, p);
        prepared_properties.push(q);
        proof {
            n = n + 1;
        }
    }
    let model = match unprocessed.model {
        Err(errors) => Err(errors),
        Ok(m) => process_model(m),
    };
    let ghost prepared_all = prepared_properties@;
    let mut properties_out: Vec<Result<ProcessedQuery, Vec<ParserError>>> = Vec::new();
    let mut rest = prepared_properties;
    let ghost mut k: int = 0;
    while rest.len() > 0
        invariant
            0 <= k <= prepared_all.len(),
            rest@ == prepared_all.skip(k),
            properties_out@.len() == k,
            forall|j: int| 0 <= j < k ==> indexed(model, prepared_all[j], #[trigger] properties_out@[j]),
        decreases rest@.len(),
    {
        let p = rest.remove(0);
        proof {
            assert(prepared_all.skip(k).drop_first() =~= prepared_all.skip(k + 1));
            assert(prepared_all[k] == p);
        }
        let q = replace_identifiers_by_variable_indices_in_property(&model, p);
        properties_out.push(q);
        proof {
            k = k + 1;
        }
    }
    proof {
        assert forall|i: int| 0 <= i < properties@.len() implies property_outcome(
            u,
            model,
            properties@[i]@,
            float_values(*floats),
            #[trigger] properties_out@[i],
        ) by {
            assert(parsed_query(properties@[i]@, float_values(*floats), parsed[i]));
            assert(prepared(u, parsed[i], prepared_all[i]));
            assert(indexed(model, prepared_all[i], properties_out@[i]));
        }
    }
    ModelAndPropsResult { model, properties: properties_out }
}

/// Reads a model and one query and processes them; see [`parse_model_and_props`].
pub fn parse_model_and_prop<P: Fn(&str) -> u64>(source: &str, property: &str, floats: &P) -> (r: ModelAndPropResult<
    ProcessedModel,
    ProcessedQuery,
>)
    requires
        parses_floats(*floats),
        source_integers_fit(source@),
        source_integers_fit(property@),
    ensures
        exists|u: Result<UnprocessedModel, Vec<ParserError>>|
            #[trigger] parsed_model(source@, float_values(*floats), u) && model_result(u, r.model) && property_outcome(
                u,
                r.model,
                property@,
                float_values(*floats),
                r.property,
            ),
{
    let unprocessed = parse_unprocessed_model_and_prop(source, property, floats);
    let ghost pu = unprocessed.property;
    let prepared_property = substitute_labels_and_formulas_in_property(&unprocessed.model, unprocessed.property);
    let ghost pq = prepared_property;
    let model = match unprocessed.model {
        Err(errors) => Err(errors),
        Ok(m) => process_model(m),
    };
    let indexed_property = replace_identifiers_by_variable_indices_in_property(&model, prepared_property);
    assert(parsed_query(property@, float_values(*floats), pu));
    ModelAndPropResult { model, property: indexed_property }
}

} // verus!
