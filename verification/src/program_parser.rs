//! Reads a whole PRISM model from tokens: the model type and the declarations, put together into
//! a [`Model`], with every duplicate definition reported.
use crate::attribute_parser::{found_at, range_span, token_is, TokensView};
use crate::declaration_parser::{const_parser, constant_at, describes_formula, describes_label, describes_module, describes_renamed, describes_rewards, describes_variable, formula_at, formula_parser, global_variable_declaration_parser, init_at, init_constraint_parser, label_at, label_parser, ready, variable_at, DefinitionSyntax, ModuleSyntax, RenamedModuleSyntax, RewardsSyntax, Sp, VariableSyntax};
use crate::errors::ElementKind;
use crate::expression_parser::{describes_expr, expected_at, expected_error, float_values, span_between, token_at_is, ExprSyntax};
use crate::expressions::{span_of, Expression};
use crate::formulas::{formula_names, AddFormulaError, Formula, FormulaManager};
use crate::identifier::Identifier;
use crate::labels::{label_names, AddLabelError, Label, LabelManager};
use crate::attribute_parser::input_end;
use crate::expression_parser::{lemma_lexed_tracked, parses_floats, source_integers_fit};
use crate::lexer::{lex, lex_errors, lexed_view, raw_lex, LexError};
use crate::model::{model_type_span, Model, ModelType};
use crate::module::{module_names, AddModuleError, Module, ModuleManager, RenamedModule};
use crate::module_parser::{describes_variables, module_at, module_parser, renamed_module_at, renamed_module_parser, rewards_at, rewards_parser};
use crate::names::{first_index_of, lemma_first_index_of_spec};
use crate::parse_error::{describes_error, describes_lex_failures, patterns_view, ParserError, ParserErrorValue, Pattern, PatternValue, ValidationError};
use crate::rewards::{rewards_key, rewards_keys, AddRewardsError, Rewards, RewardsManager};
use crate::spans::{FullSpan, Span};
use crate::token::{Token, TokenValue};
use crate::variables::{variable_names, VariableAddError, VariableInfo, VariableManager};
use vstd::prelude::*;
use vstd::string::StringExecFns;

verus! {

type Expr = Expression<Identifier<FullSpan>, FullSpan>;

/// A model whose expressions still refer to variables by name.
pub type UnprocessedModel = Model<Identifier<FullSpan>, FullSpan, Expr, Identifier<FullSpan>>;

type Mdl = Module<Identifier<FullSpan>, FullSpan, Expr, Identifier<FullSpan>>;

type Rwd = Rewards<FullSpan, Expr, Identifier<FullSpan>>;

/// A top-level element of a model as read from tokens.
pub enum ElementSyntax {
    /// The model type: its token and span.
    ModelType(TokenValue, Sp),
    /// A constant.
    Const(VariableSyntax),
    /// A label.
    Label(DefinitionSyntax),
    /// A module.
    Module(ModuleSyntax),
    /// A renamed module.
    RenamedModule(RenamedModuleSyntax),
    /// A global variable.
    GlobalVariable(VariableSyntax),
    /// A formula.
    Formula(DefinitionSyntax),
    /// An initial-state constraint and the span of the whole constraint.
    InitConstraint(ExprSyntax, Sp),
    /// A reward structure.
    Rewards(RewardsSyntax),
}

/// A top-level element of a model.
pub enum ProgramElement {
    /// The model type.
    ModelType(ModelType<FullSpan>),
    /// A constant.
    Const(VariableInfo<FullSpan, Expr>),
    /// A label.
    Label(Label<FullSpan, Expr>),
    /// A module, with its variable declarations apart.
    Module(Mdl, Vec<VariableInfo<FullSpan, Expr>>),
    /// A renamed module.
    RenamedModule(RenamedModule<FullSpan>),
    /// A global variable.
    GlobalVariable(VariableInfo<FullSpan, Expr>),
    /// A formula.
    Formula(Formula<FullSpan, Expr>),
    /// An initial-state constraint and the span of the whole constraint.
    InitConstraint(Expr, FullSpan),
    /// A reward structure.
    Rewards(Rwd),
}

/// Reads a model type at `k`: `dtmc`, `ctmc` or `mdp`. The types `pta`, `pomdp` and `popta` are
/// refused as unsupported.
pub open spec fn model_type_at(toks: TokensView, k: int, eoi: usize) -> Result<(TokenValue, Sp), ParserErrorValue> {
    match found_at(toks, k) {
        Some(TokenValue::Dtmc) => Ok((TokenValue::Dtmc, toks[k].1)),
        Some(TokenValue::Ctmc) => Ok((TokenValue::Ctmc, toks[k].1)),
        Some(TokenValue::Mdp) => Ok((TokenValue::Mdp, toks[k].1)),
        Some(TokenValue::Pta) => Err(ParserErrorValue::UnsupportedModelType { model_type: "pta"@, span: toks[k].1 }),
        Some(TokenValue::Pomdp) => Err(
            ParserErrorValue::UnsupportedModelType { model_type: "pomdp"@, span: toks[k].1 },
        ),
        Some(TokenValue::Popta) => Err(
            ParserErrorValue::UnsupportedModelType { model_type: "popta"@, span: toks[k].1 },
        ),
        _ => Err(expected_at(toks, k, eoi, seq![PatternValue::Label("model type"@)])),
    }
}

/// Whether a token starts a model type.
pub open spec fn is_model_type_token(t: TokenValue) -> bool {
    t is Dtmc || t is Ctmc || t is Mdp || t is Pta || t is Pomdp || t is Popta
}

/// What may stand where a top-level element or the end of the input is expected.
pub open spec fn element_patterns() -> Seq<PatternValue> {
    seq![
        PatternValue::Label("model type"@),
        PatternValue::Label("module"@),
        PatternValue::Label("renamed module"@),
        PatternValue::Label("constant"@),
        PatternValue::Label("label"@),
        PatternValue::Label("formula"@),
        PatternValue::Label("global variable declaration"@),
        PatternValue::Label("rewards structure"@),
        PatternValue::Label("init constraint"@),
        PatternValue::EndOfInput,
    ]
}

/// A model type read at `k` as an element.
#[verifier::opaque]
pub open spec fn model_type_element(toks: TokensView, k: int, eoi: usize) -> Result<(ElementSyntax, int), ParserErrorValue> {
    match model_type_at(toks, k, eoi) {
        Err(e) => Err(e),
        Ok((t, s)) => Ok((ElementSyntax::ModelType(t, s), k + 1)),
    }
}

/// A module read at `k` as an element: a renamed module if its name is followed by `=`.
#[verifier::opaque]
pub open spec fn module_element(toks: TokensView, k: int, eoi: usize) -> Result<(ElementSyntax, int), ParserErrorValue> {
    if token_is(toks, k + 2, TokenValue::Equal) {
        match renamed_module_at(toks, k, eoi) {
            Err(e) => Err(e),
            Ok((x, j)) => Ok((ElementSyntax::RenamedModule(x), j)),
        }
    } else {
        match module_at(toks, k, eoi) {
            Err(e) => Err(e),
            Ok((x, j)) => Ok((ElementSyntax::Module(x), j)),
        }
    }
}

/// A constant read at `k` as an element.
#[verifier::opaque]
pub open spec fn const_element(toks: TokensView, k: int, eoi: usize) -> Result<(ElementSyntax, int), ParserErrorValue> {
    match constant_at(toks, k, eoi) {
        Err(e) => Err(e),
        Ok((x, j)) => Ok((ElementSyntax::Const(x), j)),
    }
}

/// A label read at `k` as an element.
#[verifier::opaque]
pub open spec fn label_element(toks: TokensView, k: int, eoi: usize) -> Result<(ElementSyntax, int), ParserErrorValue> {
    match label_at(toks, k, eoi) {
        Err(e) => Err(e),
        Ok((x, j)) => Ok((ElementSyntax::Label(x), j)),
    }
}

/// A formula read at `k` as an element.
#[verifier::opaque]
pub open spec fn formula_element(toks: TokensView, k: int, eoi: usize) -> Result<(ElementSyntax, int), ParserErrorValue> {
    match formula_at(toks, k, eoi) {
        Err(e) => Err(e),
        Ok((x, j)) => Ok((ElementSyntax::Formula(x), j)),
    }
}

/// A global variable read at `k`, where `global` stands, as an element.
#[verifier::opaque]
pub open spec fn global_element(toks: TokensView, k: int, eoi: usize) -> Result<(ElementSyntax, int), ParserErrorValue> {
    match variable_at(toks, k, k + 1, eoi) {
        Err(e) => Err(e),
        Ok((x, j)) => Ok((ElementSyntax::GlobalVariable(x), j)),
    }
}

/// A reward structure read at `k` as an element.
#[verifier::opaque]
pub open spec fn rewards_element(toks: TokensView, k: int, eoi: usize) -> Result<(ElementSyntax, int), ParserErrorValue> {
    match rewards_at(toks, k, eoi) {
        Err(e) => Err(e),
        Ok((x, j)) => Ok((ElementSyntax::Rewards(x), j)),
    }
}

/// An initial-state constraint read at `k` as an element.
#[verifier::opaque]
pub open spec fn init_element(toks: TokensView, k: int, eoi: usize) -> Result<(ElementSyntax, int), ParserErrorValue> {
    match init_at(toks, k, eoi) {
        Err(e) => Err(e),
        Ok((c, s, j)) => Ok((ElementSyntax::InitConstraint(c, s), j)),
    }
}

/// Reads a top-level element at `k`, chosen by its first token.
pub open spec fn element_at(toks: TokensView, k: int, eoi: usize) -> Result<(ElementSyntax, int), ParserErrorValue> {
    match found_at(toks, k) {
        Some(t) => if is_model_type_token(t) {
            model_type_element(toks, k, eoi)
        } else if t is Module {
            module_element(toks, k, eoi)
        } else if t is Const {
            const_element(toks, k, eoi)
        } else if t is Label {
            label_element(toks, k, eoi)
        } else if t is Formula {
            formula_element(toks, k, eoi)
        } else if t is Global {
            global_element(toks, k, eoi)
        } else if t is Rewards {
            rewards_element(toks, k, eoi)
        } else if t is Init {
            init_element(toks, k, eoi)
        } else {
            Err(expected_at(toks, k, eoi, element_patterns()))
        },
        None => Err(expected_at(toks, k, eoi, element_patterns())),
    }
}

/// Reads top-level elements from `k` to the end of the tokens. Gives the elements read and, if
/// an element could not be read, the error that stopped the reading.
#[verifier::opaque]
pub open spec fn elements_from(toks: TokensView, k: int, eoi: usize) -> (Seq<ElementSyntax>, Option<ParserErrorValue>)
    decreases toks.len() - k,
{
    if k < 0 || k >= toks.len() {
        (seq![], None)
    } else {
        match element_at(toks, k, eoi) {
            Err(e) => (seq![], Some(e)),
            Ok((x, j)) => if k < j <= toks.len() {
                let (rest, err) = elements_from(toks, j, eoi);
                (seq![x] + rest, err)
            } else {
                (seq![x], None)
            },
        }
    }
}

/// The model type `t` is the one that the token `tok` at `sp` stands for.
pub open spec fn describes_model_type(t: ModelType<FullSpan>, tok: TokenValue, sp: Sp) -> bool {
    match (t, tok) {
        (ModelType::Dtmc(s), TokenValue::Dtmc) => s.spec_range() == sp,
        (ModelType::Ctmc(s), TokenValue::Ctmc) => s.spec_range() == sp,
        (ModelType::Mdp(s), TokenValue::Mdp) => s.spec_range() == sp,
        _ => false,
    }
}

/// The element `e` is the one that `x` describes.
pub open spec fn describes_element(e: ProgramElement, x: ElementSyntax, fl: spec_fn(Seq<char>) -> u64) -> bool {
    match (e, x) {
        (ProgramElement::ModelType(t), ElementSyntax::ModelType(tok, sp)) => describes_model_type(t, tok, sp),
        (ProgramElement::Const(v), ElementSyntax::Const(s)) => describes_variable(v, s, true, None, fl),
        (ProgramElement::Label(l), ElementSyntax::Label(s)) => describes_label(l, s, fl),
        (ProgramElement::Module(m, vs), ElementSyntax::Module(s)) => describes_module(m, s, fl)
            && describes_variables(vs@, s.variables, fl),
        (ProgramElement::RenamedModule(m), ElementSyntax::RenamedModule(s)) => describes_renamed(m, s),
        (ProgramElement::GlobalVariable(v), ElementSyntax::GlobalVariable(s)) => describes_variable(
            v,
            s,
            false,
            None,
            fl,
        ),
        (ProgramElement::Formula(f), ElementSyntax::Formula(s)) => describes_formula(f, s, fl),
        (ProgramElement::InitConstraint(c, sp), ElementSyntax::InitConstraint(s, t)) => describes_expr(c, s, fl)
            && sp.spec_range() == t,
        (ProgramElement::Rewards(r), ElementSyntax::Rewards(s)) => describes_rewards(r, s, fl),
        _ => false,
    }
}

/// The elements `es` are the ones that `xs` describes.
pub open spec fn describes_elements(
    es: Seq<ProgramElement>,
    xs: Seq<ElementSyntax>,
    fl: spec_fn(Seq<char>) -> u64,
) -> bool {
    &&& es.len() == xs.len()
    &&& forall|i: int| 0 <= i < xs.len() ==> describes_element(#[trigger] es[i], xs[i], fl)
}

/// What the elements read so far make up: the parts of the model and the errors found.
#[verifier::ext_equal]
pub struct Parts {
    /// The model type, if one was declared.
    pub model_type: Option<ModelType<FullSpan>>,
    /// The constants and variables.
    pub variables: Seq<VariableInfo<FullSpan, Expr>>,
    /// The formulas.
    pub formulas: Seq<Formula<FullSpan, Expr>>,
    /// The modules.
    pub modules: Seq<Mdl>,
    /// The renamed modules.
    pub renamed_modules: Seq<RenamedModule<FullSpan>>,
    /// The initial-state constraint and the span of the whole constraint, if one was declared.
    pub init_constraint: Option<(Expr, FullSpan)>,
    /// The labels.
    pub labels: Seq<Label<FullSpan, Expr>>,
    /// The reward structures.
    pub rewards: Seq<Rwd>,
    /// The errors found, in order.
    pub errors: Seq<ParserError>,
}

/// No element read yet.
pub open spec fn no_parts() -> Parts {
    Parts {
        model_type: None,
        variables: seq![],
        formulas: seq![],
        modules: seq![],
        renamed_modules: seq![],
        init_constraint: None,
        labels: seq![],
        rewards: seq![],
        errors: seq![],
    }
}

/// The error for an element of the given kind defined at `new` whose name was first defined at
/// `previous`.
pub open spec fn duplicate_error(previous: FullSpan, new: FullSpan, kind: ElementKind) -> ParserError {
    ParserError::Validation(
        ValidationError::DuplicateElement { previous_occurrence: previous, new_definition: new, kind },
    )
}

/// Adds a constant or variable; if its name is taken, reports it as a duplicate of the given kind
/// instead.
pub open spec fn with_variable(p: Parts, v: VariableInfo<FullSpan, Expr>, kind: ElementKind) -> Parts {
    match first_index_of(variable_names(p.variables), v.name.name@) {
        Some(i) => Parts { errors: p.errors.push(duplicate_error(p.variables[i].span, v.span, kind)), ..p },
        None => Parts { variables: p.variables.push(v), ..p },
    }
}

/// Adds the local variables `vs`, in order, with the scope of the module with the given index.
pub open spec fn with_locals(p: Parts, vs: Seq<VariableInfo<FullSpan, Expr>>, module: usize) -> Parts
    decreases vs.len(),
{
    if vs.len() == 0 {
        p
    } else {
        with_variable(
            with_locals(p, vs.drop_last(), module),
            VariableInfo { scope: Some(module), ..vs.last() },
            ElementKind::LocalVar,
        )
    }
}

/// Adds an element. A second model type, a second initial-state constraint and an element whose
/// name is taken by one of its kind are reported instead of added; a module whose name is taken
/// adds none of its variables.
pub open spec fn with_element(p: Parts, e: ProgramElement) -> Parts {
    match e {
        ProgramElement::ModelType(t) => match p.model_type {
            None => Parts { model_type: Some(t), ..p },
            Some(first) => Parts {
                errors: p.errors.push(
                    ParserError::Validation(
                        ValidationError::DuplicateModelType {
                            first_occurrence: model_type_span(first),
                            duplicate_occurrence: model_type_span(t),
                        },
                    ),
                ),
                ..p
            },
        },
        ProgramElement::Module(m, vs) => match first_index_of(module_names(p.modules), m.name.name@) {
            Some(i) => Parts {
                errors: p.errors.push(duplicate_error(p.modules[i].span, m.span, ElementKind::Module)),
                ..p
            },
            None => with_locals(Parts { modules: p.modules.push(m), ..p }, vs@, p.modules.len() as usize),
        },
        ProgramElement::RenamedModule(m) => Parts { renamed_modules: p.renamed_modules.push(m), ..p },
        ProgramElement::Const(c) => with_variable(p, c, ElementKind::Const),
        ProgramElement::GlobalVariable(v) => with_variable(p, v, ElementKind::GlobalVar),
        ProgramElement::Label(l) => match first_index_of(label_names(p.labels), l.name.name@) {
            Some(i) => Parts {
                errors: p.errors.push(duplicate_error(p.labels[i].span, l.span, ElementKind::Label)),
                ..p
            },
            None => Parts { labels: p.labels.push(l), ..p },
        },
        ProgramElement::Formula(f) => match first_index_of(formula_names(p.formulas), f.name.name@) {
            Some(i) => Parts {
                errors: p.errors.push(duplicate_error(p.formulas[i].span, f.span, ElementKind::Formula)),
                ..p
            },
            None => Parts { formulas: p.formulas.push(f), ..p },
        },
        ProgramElement::InitConstraint(c, s) => match p.init_constraint {
            None => Parts { init_constraint: Some((c, s)), ..p },
            Some((first, first_span)) => Parts {
                errors: p.errors.push(
                    ParserError::Validation(
                        ValidationError::DuplicateInitConstraint {
                            first_occurrence: first_span,
                            first_occurrence_inner: span_of(first),
                            duplicate_occurrence: s,
                            duplicate_occurrence_inner: span_of(c),
                        },
                    ),
                ),
                ..p
            },
        },
        ProgramElement::Rewards(r) => match first_index_of(rewards_keys(p.rewards), rewards_key(r)) {
            Some(i) => Parts {
                errors: p.errors.push(duplicate_error(p.rewards[i].span, r.span, ElementKind::Reward)),
                ..p
            },
            None => Parts { rewards: p.rewards.push(r), ..p },
        },
    }
}

/// The parts that the elements `es`, added in order, make up.
pub open spec fn built(es: Seq<ProgramElement>) -> Parts
    decreases es.len(),
{
    if es.len() == 0 {
        no_parts()
    } else {
        with_element(built(es.drop_last()), es.last())
    }
}

/// The errors of a model made of `p`: those found while adding, then the lack of a model type.
pub open spec fn parts_errors(p: Parts) -> Seq<ParserError> {
    if p.model_type is None {
        p.errors.push(ParserError::Validation(ValidationError::MissingModelType))
    } else {
        p.errors
    }
}

/// The model `m` is made of the parts `p` and has the span `span`; without a declared type it is
/// an MDP with the empty span.
pub open spec fn model_of(m: UnprocessedModel, p: Parts, span: Sp) -> bool {
    &&& match p.model_type {
        Some(t) => m.model_type == t,
        None => m.model_type matches ModelType::Mdp(s) && s.spec_range() is None,
    }
    &&& m.variable_manager.variables@ == p.variables
    &&& m.formulas.formulas@ == p.formulas
    &&& m.modules.modules@ == p.modules
    &&& m.renamed_modules@ == p.renamed_modules
    &&& m.init_constraint == match p.init_constraint {
        Some((c, _)) => Some(c),
        None => None::<Expr>,
    }
    &&& m.labels.labels@ == p.labels
    &&& m.rewards.rewards@ == p.rewards
    &&& m.span.spec_range() == span
}

/// The state of a model under construction.
struct ProgramBuilder {
    model_type: Option<ModelType<FullSpan>>,
    variables: VariableManager<FullSpan, Expr>,
    formulas: FormulaManager<FullSpan, Expr>,
    modules: ModuleManager<Identifier<FullSpan>, FullSpan, Expr, Identifier<FullSpan>>,
    renamed_modules: Vec<RenamedModule<FullSpan>>,
    init_constraint: Option<(Expr, FullSpan)>,
    labels: LabelManager<FullSpan, Expr>,
    rewards: RewardsManager<FullSpan, Expr, Identifier<FullSpan>>,
    errors: Vec<ParserError>,
}

impl ProgramBuilder {
    spec fn parts(&self) -> Parts {
        Parts {
            model_type: self.model_type,
            variables: self.variables.variables@,
            formulas: self.formulas.formulas@,
            modules: self.modules.modules@,
            renamed_modules: self.renamed_modules@,
            init_constraint: self.init_constraint,
            labels: self.labels.labels@,
            rewards: self.rewards.rewards@,
            errors: self.errors@,
        }
    }

    fn new() -> (r: Self)
        ensures
            r.parts() == no_parts(),
    {
        ProgramBuilder {
            model_type: None,
            variables: VariableManager::new(),
            formulas: FormulaManager::new(),
            modules: ModuleManager::new(),
            renamed_modules: Vec::new(),
            init_constraint: None,
            labels: LabelManager::new(),
            rewards: RewardsManager::new(),
            errors: Vec::new(),
        }
    }

    /// Adds a constant or variable, or reports it as a duplicate of the given kind.
    fn add_or_emit_variable(&mut self, variable: VariableInfo<FullSpan, Expr>, kind: ElementKind)
        ensures
            final(self).parts() == with_variable(old(self).parts(), variable, kind),
    {
        let span = variable.span;
        let ghost name = variable.name.name@;
        let ghost before = self.parts();
        let count = self.variables.variables.len();
        proof {
            lemma_first_index_of_spec(variable_names(self.variables.variables@), name);
        }
        match self.variables.add_variable(variable) {
            Ok(_) => {},
            Err(VariableAddError::VariableExists { reference }) => {
                let previous = self.variables.variables[reference.index].span;
                self.errors.push(
                    ParserError::Validation(
                        ValidationError::DuplicateElement { previous_occurrence: previous, new_definition: span, kind },
                    ),
                );
            },
        }
    }

    /// Adds the local variables of the module with the given index, in order.
    fn add_locals(&mut self, variables: Vec<VariableInfo<FullSpan, Expr>>, module: usize)
        ensures
            final(self).parts() == with_locals(old(self).parts(), variables@, module),
    {
        let ghost all = variables@;
        let ghost start = self.parts();
        let mut rest = variables;
        let ghost mut n: int = 0;
        proof {
            assert(all.take(0) =~= seq![]);
        }
        while rest.len() > 0
            invariant
                0 <= n <= all.len(),
                rest@ == all.skip(n),
                self.parts() == with_locals(start, all.take(n), module),
            decreases rest@.len(),
        {
            let mut v = rest.remove(0);
            v.scope = Some(module);
            proof {
                assert(all.take(n + 1).drop_last() =~= all.take(n));
                assert(all.take(n + 1).last() == all[n]);
                assert(all.skip(n).drop_first() =~= all.skip(n + 1));
            }
            self.add_or_emit_variable(v, ElementKind::LocalVar);
            proof {
                n = n + 1;
            }
        }
        proof {
            assert(all.take(n) =~= all);
        }
    }

    /// Adds an element, or reports it; see [`with_element`].
    fn add_element(&mut self, element: ProgramElement)
        ensures
            final(self).parts() == with_element(old(self).parts(), element),
    {
        let ghost p = self.parts();
        match element {
            ProgramElement::ModelType(t) => {
                match &self.model_type {
                    None => {
                        self.model_type = Some(t);
                    },
                    Some(first) => {
                        let first_occurrence = *first.span();
                        let duplicate_occurrence = *t.span();
                        self.errors.push(
                            ParserError::Validation(
                                ValidationError::DuplicateModelType { first_occurrence, duplicate_occurrence },
                            ),
                        );
                    },
                }
            },
            ProgramElement::Module(m, variables) => {
                let span = m.span;
                let count = self.modules.modules.len();
                proof {
                    lemma_first_index_of_spec(module_names(self.modules.modules@), m.name.name@);
                }
                match self.modules.add(m) {
                    Ok(index) => {
                        self.add_locals(variables, index);
                    },
                    Err(AddModuleError::ModuleExists { index }) => {
                        let previous = self.modules.modules[index].span;
                        self.errors.push(
                            ParserError::Validation(
                                ValidationError::DuplicateElement {
                                    previous_occurrence: previous,
                                    new_definition: span,
                                    kind: ElementKind::Module,
                                },
                            ),
                        );
                    },
                }
            },
            ProgramElement::RenamedModule(m) => {
                self.renamed_modules.push(m);
            },
            ProgramElement::Const(c) => {
                self.add_or_emit_variable(c, ElementKind::Const);
            },
            ProgramElement::GlobalVariable(v) => {
                self.add_or_emit_variable(v, ElementKind::GlobalVar);
            },
            ProgramElement::Label(l) => {
                let span = l.span;
                let count = self.labels.labels.len();
                proof {
                    lemma_first_index_of_spec(label_names(self.labels.labels@), l.name.name@);
                }
                match self.labels.add_label(l) {
                    Ok(_) => {},
                    Err(AddLabelError::LabelExists { index }) => {
                        let previous = self.labels.labels[index].span;
                        self.errors.push(
                            ParserError::Validation(
                                ValidationError::DuplicateElement {
                                    previous_occurrence: previous,
                                    new_definition: span,
                                    kind: ElementKind::Label,
                                },
                            ),
                        );
                    },
                }
            },
            ProgramElement::Formula(f) => {
                let span = f.span;
                let count = self.formulas.formulas.len();
                proof {
                    lemma_first_index_of_spec(formula_names(self.formulas.formulas@), f.name.name@);
                }
                match self.formulas.add_formula(f) {
                    Ok(_) => {},
                    Err(AddFormulaError::FormulaExists { index }) => {
                        let previous = self.formulas.formulas[index].span;
                        self.errors.push(
                            ParserError::Validation(
                                ValidationError::DuplicateElement {
                                    previous_occurrence: previous,
                                    new_definition: span,
                                    kind: ElementKind::Formula,
                                },
                            ),
                        );
                    },
                }
            },
            ProgramElement::InitConstraint(c, s) => {
                match &self.init_constraint {
                    None => {
                        self.init_constraint = Some((c, s));
                    },
                    Some((first, first_span)) => {
                        let first_occurrence = *first_span;
                        let first_occurrence_inner = *first.span();
                        let duplicate_occurrence_inner = *c.span();
                        self.errors.push(
                            ParserError::Validation(
                                ValidationError::DuplicateInitConstraint {
                                    first_occurrence,
                                    first_occurrence_inner,
                                    duplicate_occurrence: s,
                                    duplicate_occurrence_inner,
                                },
                            ),
                        );
                    },
                }
            },
            ProgramElement::Rewards(r) => {
                let span = r.span;
                let count = self.rewards.rewards.len();
                proof {
                    lemma_first_index_of_spec(rewards_keys(self.rewards.rewards@), rewards_key(r));
                }
                match self.rewards.add(r) {
                    Ok(_) => {},
                    Err(AddRewardsError::RewardsExist { index }) => {
                        let previous = self.rewards.rewards[index].span;
                        self.errors.push(
                            ParserError::Validation(
                                ValidationError::DuplicateElement {
                                    previous_occurrence: previous,
                                    new_definition: span,
                                    kind: ElementKind::Reward,
                                },
                            ),
                        );
                    },
                }
            },
        }
    }

    /// The model made of the parts, with the given span, and the errors found; a missing model
    /// type is reported last.
    fn finish(self, span: FullSpan) -> (r: (UnprocessedModel, Vec<ParserError>))
        ensures
            model_of(r.0, self.parts(), span.spec_range()),
            r.1@ == parts_errors(self.parts()),
    {
        let mut errors = self.errors;
        let model_type = match self.model_type {
            Some(t) => t,
            None => {
                errors.push(ParserError::Validation(ValidationError::MissingModelType));
                ModelType::Mdp(FullSpan::empty())
            },
        };
        let init_constraint = match self.init_constraint {
            Some((c, _)) => Some(c),
            None => None,
        };
        let model = Model {
            model_type,
            variable_manager: self.variables,
            formulas: self.formulas,
            modules: self.modules,
            renamed_modules: self.renamed_modules,
            init_constraint,
            labels: self.labels,
            rewards: self.rewards,
            span,
        };
        (model, errors)
    }
}

/// Reads a model type at `k`; see [`model_type_at`].
pub fn model_type_parser(tokens: &Vec<(Token, FullSpan)>, k: usize, eoi: usize) -> (r: Result<
    (ModelType<FullSpan>, usize),
    ParserError,
>)
    requires
        tokens@.len() <= usize::MAX,
    ensures
        match (r, model_type_at(lexed_view(tokens@), k as int, eoi)) {
            (Ok((t, j)), Ok((tok, sp))) => describes_model_type(t, tok, sp) && j == k + 1 && k < tokens@.len(),
            (Err(e), Err(v)) => describes_error(e, v),
            _ => false,
        },
{
    if k >= tokens.len() {
        let expected = vec![Pattern::Label(String::from_str("model type"))];
        assert(patterns_view(expected@) =~= seq![PatternValue::Label("model type"@)]);
        return Err(expected_error(tokens, k, eoi, expected));
    }
    let span = tokens[k].1;
    match &tokens[k].0 {
        Token::Dtmc => Ok((ModelType::Dtmc(span), k + 1)),
        Token::Ctmc => Ok((ModelType::Ctmc(span), k + 1)),
        Token::Mdp => Ok((ModelType::Mdp(span), k + 1)),
        Token::Pta => Err(
            ParserError::Validation(
                ValidationError::UnsupportedModelType { model_type: String::from_str("pta"), span },
            ),
        ),
        Token::Pomdp => Err(
            ParserError::Validation(
                ValidationError::UnsupportedModelType { model_type: String::from_str("pomdp"), span },
            ),
        ),
        Token::Popta => Err(
            ParserError::Validation(
                ValidationError::UnsupportedModelType { model_type: String::from_str("popta"), span },
            ),
        ),
        _ => {
            let expected = vec![Pattern::Label(String::from_str("model type"))];
            assert(patterns_view(expected@) =~= seq![PatternValue::Label("model type"@)]);
            Err(expected_error(tokens, k, eoi, expected))
        },
    }
}

/// Reads a top-level element at `k`; see [`element_at`].
pub fn program_element_parser<P: Fn(&str) -> u64>(tokens: &Vec<(Token, FullSpan)>, k: usize, eoi: usize, floats: &P) -> (r: Result<
    (ProgramElement, usize),
    ParserError,
>)
    requires
        k < tokens@.len(),
        ready(tokens@, *floats),
    ensures
        match (r, element_at(lexed_view(tokens@), k as int, eoi)) {
            (Ok((e, j)), Ok((x, m))) => describes_element(e, x, float_values(*floats)) && j == m && k < j
                <= tokens@.len(),
            (Err(e), Err(v)) => describes_error(e, v),
            _ => false,
        },
{
    let ghost toks = lexed_view(tokens@);
    let t = &tokens[k].0;
    let is_model_type = match t {
        Token::Dtmc => true,
        Token::Ctmc => true,
        Token::Mdp => true,
        Token::Pta => true,
        Token::Pomdp => true,
        Token::Popta => true,
        _ => false,
    };
    if is_model_type {
        proof {
            reveal(model_type_element);
        }
        match model_type_parser(tokens, k, eoi) {
            Err(e) => Err(e),
            Ok((m, j)) => Ok((ProgramElement::ModelType(m), j)),
        }
    } else {
        match t {
            Token::Module => {
                proof {
                    reveal(module_element);
                }
                if tokens.len() - k > 2 && token_at_is(tokens, k + 2, &Token::Equal) {
                    match renamed_module_parser(tokens, k, eoi) {
                        Err(e) => Err(e),
                        Ok((m, j)) => Ok((ProgramElement::RenamedModule(m), j)),
                    }
                } else {
                    match module_parser(tokens, k, eoi, floats) {
                        Err(e) => Err(e),
                        Ok((m, vs, j)) => Ok((ProgramElement::Module(m, vs), j)),
                    }
                }
            },
            Token::Const => {
                proof {
                    reveal(const_element);
                }
                match const_parser(tokens, k, eoi, floats) {
                    Err(e) => Err(e),
                    Ok((v, j)) => Ok((ProgramElement::Const(v), j)),
                }
            },
            Token::Label => {
                proof {
                    reveal(label_element);
                }
                match label_parser(tokens, k, eoi, floats) {
                    Err(e) => Err(e),
                    Ok((l, j)) => Ok((ProgramElement::Label(l), j)),
                }
            },
            Token::Formula => {
                proof {
                    reveal(formula_element);
                }
                match formula_parser(tokens, k, eoi, floats) {
                    Err(e) => Err(e),
                    Ok((f, j)) => Ok((ProgramElement::Formula(f), j)),
                }
            },
            Token::Global => {
                proof {
                    reveal(global_element);
                }
                match global_variable_declaration_parser(tokens, k, eoi, floats) {
                    Err(e) => Err(e),
                    Ok((v, j)) => Ok((ProgramElement::GlobalVariable(v), j)),
                }
            },
            Token::Rewards => {
                proof {
                    reveal(rewards_element);
                }
                match rewards_parser(tokens, k, eoi, floats) {
                    Err(e) => Err(e),
                    Ok((r, j)) => Ok((ProgramElement::Rewards(r), j)),
                }
            },
            Token::Init => {
                proof {
                    reveal(init_element);
                }
                match init_constraint_parser(tokens, k, eoi, floats) {
                    Err(e) => Err(e),
                    Ok((c, s, j)) => Ok((ProgramElement::InitConstraint(c, s), j)),
                }
            },
            _ => {
                let expected = vec![
                    Pattern::Label(String::from_str("model type")),
                    Pattern::Label(String::from_str("module")),
                    Pattern::Label(String::from_str("renamed module")),
                    Pattern::Label(String::from_str("constant")),
                    Pattern::Label(String::from_str("label")),
                    Pattern::Label(String::from_str("formula")),
                    Pattern::Label(String::from_str("global variable declaration")),
                    Pattern::Label(String::from_str("rewards structure")),
                    Pattern::Label(String::from_str("init constraint")),
                    Pattern::EndOfInput,
                ];
                assert(patterns_view(expected@) =~= element_patterns());
                Err(expected_error(tokens, k, eoi, expected))
            },
        }
    }
}

/// The errors `errors` are `base`, then the error described by `err`, if there is one.
pub open spec fn errors_then(errors: Seq<ParserError>, base: Seq<ParserError>, err: Option<ParserErrorValue>) -> bool {
    match err {
        None => errors == base,
        Some(v) => errors.len() == base.len() + 1 && errors.take(base.len() as int) == base && describes_error(
            errors.last(),
            v,
        ),
    }
}

/// Reading all of `toks` gives the model `model` and the errors `errors`: the model is made of
/// the elements read, and the errors are those of adding these elements, then the lack of a
/// model type, then the error that stopped the reading, if any.
pub open spec fn program_outcome(
    toks: TokensView,
    eoi: usize,
    fl: spec_fn(Seq<char>) -> u64,
    model: UnprocessedModel,
    errors: Seq<ParserError>,
) -> bool {
    let (xs, err) = elements_from(toks, 0, eoi);
    exists|es: Seq<ProgramElement>|
        #[trigger] describes_elements(es, xs, fl) && model_of(model, built(es), range_span(toks, 0, toks.len() as int, eoi))
            && errors_then(errors, parts_errors(built(es)), err)
}

/// Reading the elements from `k` gives `done`, then what reading from `i` gives.
#[verifier::opaque]
spec fn program_after(toks: TokensView, k: int, i: int, eoi: usize, done: Seq<ElementSyntax>) -> bool {
    let (rest, err) = elements_from(toks, i, eoi);
    elements_from(toks, k, eoi) == (done + rest, err)
}

proof fn lemma_program_start(toks: TokensView, eoi: usize)
    ensures
        program_after(toks, 0, 0, eoi, seq![]),
{
    reveal(program_after);
    let (rest, err) = elements_from(toks, 0, eoi);
    assert(seq![] + rest =~= rest);
}

proof fn lemma_program_step(toks: TokensView, i: int, eoi: usize, done: Seq<ElementSyntax>)
    requires
        program_after(toks, 0, i, eoi, done),
        0 <= i,
    ensures
        i >= toks.len() ==> elements_from(toks, 0, eoi) == (done, None::<ParserErrorValue>),
        i < toks.len() ==> match element_at(toks, i, eoi) {
            Err(v) => elements_from(toks, 0, eoi) == (done, Some(v)),
            Ok((x, j)) => i < j <= toks.len() ==> program_after(toks, 0, j, eoi, done.push(x)),
        },
{
    reveal(program_after);
    reveal(elements_from);
    if i >= toks.len() {
        assert(done + seq![] =~= done);
    } else {
        match element_at(toks, i, eoi) {
            Err(v) => {
                assert(done + seq![] =~= done);
            },
            Ok((x, j)) => {
                if i < j <= toks.len() {
                    let (rest, err) = elements_from(toks, j, eoi);
                    assert(done + (seq![x] + rest) =~= done.push(x) + rest);
                }
            },
        }
    }
}

/// Reads the model in `tokens`: its elements, as far as they can be read, are put together, and
/// every error is reported; see [`program_outcome`].
pub fn program_parser<P: Fn(&str) -> u64>(tokens: &Vec<(Token, FullSpan)>, eoi: usize, floats: &P) -> (r: (
    UnprocessedModel,
    Vec<ParserError>,
))
    requires
        ready(tokens@, *floats),
    ensures
        program_outcome(lexed_view(tokens@), eoi, float_values(*floats), r.0, r.1@),
{
    let ghost toks = lexed_view(tokens@);
    let ghost fl = float_values(*floats);
    let mut builder = ProgramBuilder::new();
    let ghost mut es: Seq<ProgramElement> = seq![];
    let ghost mut xs: Seq<ElementSyntax> = seq![];
    let mut stop: Option<ParserError> = None;
    let mut i: usize = 0;
    proof {
        lemma_program_start(toks, eoi);
    }
    loop
        invariant_except_break
            stop is None,
        invariant
            toks == lexed_view(tokens@),
            fl == float_values(*floats),
            i <= tokens@.len(),
            ready(tokens@, *floats),
            describes_elements(es, xs, fl),
            builder.parts() == built(es),
            program_after(toks, 0, i as int, eoi, xs),
        ensures
            elements_from(toks, 0, eoi).0 == xs,
            match (stop, elements_from(toks, 0, eoi).1) {
                (None, None) => true,
                (Some(e), Some(v)) => describes_error(e, v),
                _ => false,
            },
        decreases tokens@.len() - i,
    {
        proof {
            lemma_program_step(toks, i as int, eoi, xs);
        }
        if i >= tokens.len() {
            break;
        }
        match program_element_parser(tokens, i, eoi, floats) {
            Err(e) => {
                stop = Some(e);
                break;
            },
            Ok((element, j)) => {
                proof {
                    let x = element_at(toks, i as int, eoi)->Ok_0.0;
                    assert(es.push(element).drop_last() =~= es);
                    es = es.push(element);
                    xs = xs.push(x);
                }
                builder.add_element(element);
                i = j;
            },
        }
    }
    let n = tokens.len();
    let span = if n == 0 {
        FullSpan::from_range(eoi..eoi)
    } else {
        span_between(tokens, 0, n, eoi)
    };
    let ghost p = builder.parts();
    let (model, mut errors) = builder.finish(span);
    let ghost base = errors@;
    match stop {
        None => {},
        Some(e) => {
            errors.push(e);
            assert(errors@.take(base.len() as int) =~= base);
        },
    }
    assert(describes_elements(es, xs, fl));
    (model, errors)
}

/// What reading the model in the source text `s` gives, floating-point literals being read by
/// `fl`: if the text cannot be split into tokens, the errors say where; otherwise the model,
/// if reading it gave no error, or all the errors it gave (see [`program_outcome`]).
pub open spec fn parsed_model(
    s: Seq<char>,
    fl: spec_fn(Seq<char>) -> u64,
    r: Result<UnprocessedModel, Vec<ParserError>>,
) -> bool {
    &&& lex(s) is Err ==> (r matches Err(es) && describes_lex_failures(es@, lex_errors(s)))
    &&& lex(s) is Ok && r is Ok ==> program_outcome(lex(s)->Ok_0, input_end(s), fl, r->Ok_0, seq![])
    &&& lex(s) is Ok && r is Err ==> r->Err_0@.len() > 0 && exists|m: UnprocessedModel|
        program_outcome(lex(s)->Ok_0, input_end(s), fl, m, r->Err_0@)
}

/// Reads the model in `source` without processing it, floating-point literals being read by
/// `floats`; see [`parsed_model`].
pub fn parse_unprocessed_model<P: Fn(&str) -> u64>(source: &str, floats: &P) -> (r: Result<
    UnprocessedModel,
    Vec<ParserError>,
>)
    requires
        parses_floats(*floats),
        source_integers_fit(source@),
    ensures
        parsed_model(source@, float_values(*floats), r),
{
    let eoi = source.as_bytes().len();
    let tokens = match raw_lex(source) {
        Err(errors) => {
            let ghost es = errors@;
            let r = ParserError::from_lex_errors(errors);
            assert(es.map_values(|e: LexError| (e.span.spec_range(), e.found)) =~= lex_errors(source@));
            return Err(r);
        },
        Ok(t) => t,
    };
    let n = tokens.len();
    proof {
        lemma_lexed_tracked(source@);
    }
    let (model, errors) = program_parser(&tokens, eoi, floats);
    if errors.len() == 0 {
        assert(errors@ =~= Seq::<ParserError>::empty());
        Ok(model)
    } else {
        let r: Result<UnprocessedModel, Vec<ParserError>> = Err(errors);
        assert(program_outcome(lex(source@)->Ok_0, input_end(source@), float_values(*floats), model, r->Err_0@));
        r
    }
}

} // verus!
