# synexpr

A verified core of Rust expression syntax: the syntax tree of expressions,
patterns and statements, a parser from tokens to trees, and a printer from
trees back to tokens, proved with Verus.

- `src/token.rs`: the token model (whole operators, keywords, literals,
  delimiters).
- `src/ast.rs`: the syntax tree, operator precedence.
- `src/print.rs`: what each tree prints as, as spec functions.
- `src/attrs.rs`: reading and replacing the attributes of an expression.
- `src/parse_util.rs`, `src/parse_expr.rs`, `src/parse_pat.rs`,
  `src/parse_stmt.rs`: the parser; each function states that what it read
  prints as the tokens it was read from (`covers`).
- `src/to_tokens.rs`: the executable printer, proved equal to `print.rs`.
- `src/laws.rs`: properties that span several functions.
- `app/`: conversion between `proc_macro2` token streams and the token
  model, and `quote::ToTokens` for parsed expressions.
