# PRISM models and queries, verified

A library for the PRISM modelling language, written in Verus: its functions state what they
do in `requires`/`ensures` clauses over mathematical models of their data, and Verus proves
it. Where a statement leaves something open, the function's doc comment says so.

## Layout

- Model: `spans`, `identifier`, `expressions`, `variables`, `command`, `module`, `labels`,
  `formulas`, `rewards`, `actions`, `model`, `attributes`, `properties`.
- Traversal: `expression_maps` (the `MapExpression` visitor trait, whose methods each come
  with a step function, and `Expression::visit`, proved to fold those steps over the tree,
  children first).
- Transformations: `formula_dependencies`, `substitution`, `normalisation` (formula
  substitution, renamed-module expansion), `indexing` and `model_indexing` (variables referred
  to by index), `model_maps`, `model_actions`, `initial_states`, `query_processing`.
- Reading source text: `lexer`, `token`, `attribute_parser`, `expression_parser`,
  `declaration_parser`, `module_parser`, `program_parser`, `property_parser`, `processing`,
  `outputs`; errors in `parse_error` and `errors`; `character_to_line` maps offsets to lines.
- Printing: `display`, `text`.
- Laws: `expression_laws`, `substitution_laws`, `parsing_laws`, and proof functions beside the
  code they speak of.

The grammar of each reader is written as spec functions from tokens to syntax trees; each
executable reader is proved to return exactly what its spec function gives, or the error it
gives. Floating-point literals are read and written by functions the caller passes in, so the
library itself holds no floating-point number.
