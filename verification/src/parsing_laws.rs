//! Laws of reading and processing models.
use crate::errors::ElementKind;
use crate::formulas::formula_names;
use crate::labels::label_names;
use crate::module::module_names;
use crate::names::{first_index_of, lemma_first_index_of_spec, lemma_push_distinct, names_distinct};
use crate::processing::{processing_outcome, ProcessedModel};
use crate::program_parser::{built, no_parts, with_element, with_locals, with_variable, Parts, ProgramElement, UnprocessedModel};
use crate::rewards::rewards_keys;
use crate::spans::FullSpan;
use crate::variables::{variable_names, VariableInfo};
use crate::expressions::Expression;
use crate::identifier::Identifier;

use vstd::prelude::*;

verus! {

/// The names of the parts are distinct, kind by kind.
pub open spec fn parts_distinct(p: Parts) -> bool {
    &&& names_distinct(variable_names(p.variables))
    &&& names_distinct(module_names(p.modules))
    &&& names_distinct(label_names(p.labels))
    &&& names_distinct(formula_names(p.formulas))
    &&& names_distinct(rewards_keys(p.rewards))
}

proof fn lemma_with_variable_distinct(p: Parts, v: VariableInfo<FullSpan, Expression<Identifier<FullSpan>, FullSpan>>, kind: ElementKind)
    requires
        parts_distinct(p),
    ensures
        parts_distinct(with_variable(p, v, kind)),
{
    let names = variable_names(p.variables);
    lemma_first_index_of_spec(names, v.name.name@);
    if first_index_of(names, v.name.name@) is None {
        lemma_push_distinct(names, v.name.name@);
        assert(variable_names(p.variables.push(v)) =~= names.push(v.name.name@));
    }
}

proof fn lemma_with_locals_distinct(
    p: Parts,
    vs: Seq<VariableInfo<FullSpan, Expression<Identifier<FullSpan>, FullSpan>>>,
    module: usize,
)
    requires
        parts_distinct(p),
    ensures
        parts_distinct(with_locals(p, vs, module)),
    decreases vs.len(),
{
    if vs.len() > 0 {
        lemma_with_locals_distinct(p, vs.drop_last(), module);
        lemma_with_variable_distinct(
            with_locals(p, vs.drop_last(), module),
            VariableInfo { scope: Some(module), ..vs.last() },
            ElementKind::LocalVar,
        );
    }
}

proof fn lemma_with_element_distinct(p: Parts, e: ProgramElement)
    requires
        parts_distinct(p),
    ensures
        parts_distinct(with_element(p, e)),
{
    match e {
        ProgramElement::Module(m, vs) => {
            let names = module_names(p.modules);
            lemma_first_index_of_spec(names, m.name.name@);
            if first_index_of(names, m.name.name@) is None {
                lemma_push_distinct(names, m.name.name@);
                assert(module_names(p.modules.push(m)) =~= names.push(m.name.name@));
                lemma_with_locals_distinct(Parts { modules: p.modules.push(m), ..p }, vs@, p.modules.len() as usize);
            }
        },
        ProgramElement::Const(c) => lemma_with_variable_distinct(p, c, ElementKind::Const),
        ProgramElement::GlobalVariable(v) => lemma_with_variable_distinct(p, v, ElementKind::GlobalVar),
        ProgramElement::Label(l) => {
            let names = label_names(p.labels);
            lemma_first_index_of_spec(names, l.name.name@);
            if first_index_of(names, l.name.name@) is None {
                lemma_push_distinct(names, l.name.name@);
                assert(label_names(p.labels.push(l)) =~= names.push(l.name.name@));
            }
        },
        ProgramElement::Formula(f) => {
            let names = formula_names(p.formulas);
            lemma_first_index_of_spec(names, f.name.name@);
            if first_index_of(names, f.name.name@) is None {
                lemma_push_distinct(names, f.name.name@);
                assert(formula_names(p.formulas.push(f)) =~= names.push(f.name.name@));
            }
        },
        ProgramElement::Rewards(r) => {
            let keys = rewards_keys(p.rewards);
            lemma_first_index_of_spec(keys, crate::rewards::rewards_key(r));
            if first_index_of(keys, crate::rewards::rewards_key(r)) is None {
                lemma_push_distinct(keys, crate::rewards::rewards_key(r));
                assert(rewards_keys(p.rewards.push(r)) =~= keys.push(crate::rewards::rewards_key(r)));
            }
        },
        _ => {},
    }
}

/// Whatever elements a model is read from, no two of its constants and variables, modules,
/// labels, formulas or reward structures share a name: a second definition of a name is
/// reported instead of added.
pub proof fn law_parsed_names_distinct(es: Seq<ProgramElement>)
    ensures
        parts_distinct(built(es)),
    decreases es.len(),
{
    if es.len() == 0 {
        assert(variable_names(no_parts().variables) =~= seq![]);
        assert(module_names(no_parts().modules) =~= seq![]);
        assert(label_names(no_parts().labels) =~= seq![]);
        assert(formula_names(no_parts().formulas) =~= seq![]);
        assert(rewards_keys(no_parts().rewards) =~= seq![]);
    } else {
        law_parsed_names_distinct(es.drop_last());
        lemma_with_element_distinct(built(es.drop_last()), es.last());
    }
}

/// A processed model has no formulas and no renamed modules left: processing substitutes the
/// formulas and expands the renamed modules.
pub proof fn law_processed_model_normalised(a: UnprocessedModel, m: ProcessedModel)
    requires
        processing_outcome(a, Ok(m)),
    ensures
        m.formulas.formulas@.len() == 0,
        m.renamed_modules@.len() == 0,
{
}

} // verus!
