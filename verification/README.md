# sf_formula

A parser, validator and language server core for Salesforce-style formulas (`.sff` files),
written in Verus: the library's behaviour is stated in `requires`/`ensures` contracts over
mathematical models and proved.

- `src/parse/`: the formula grammar as spec functions on the input's bytes, and the parsers
  that are proved to follow it (literals, field references, function calls, comments,
  operators with their binding powers). `spans.rs` proves that every parsed tree lies within
  the input, each part nested in its parent.
- `src/diagnostics.rs`, `src/validation.rs`, `src/report.rs`: what an invalid formula is
  reported as: message, position, the best fix among the hint rules, and the rendered report
  (drawn by `annotate-snippets`).
- `src/lsp/`: the language server's logic: message framing, the document store, positions,
  completion of function names, syntax diagnostics, and the answers to requests.
- `app/`: the two programs around the library: the command-line checker (run under a name
  ending in `parser`) and the language server loop over standard input and output, with the
  JSON forms of the protocol's messages and logging.
