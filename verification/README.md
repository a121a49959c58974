# fervid

A compiler for Vue single-file components, written in Verus: the library's
functions carry `requires`/`ensures` contracts that Verus proves.

Layout:

- `src/parser` — starting tags and their attributes (`v-bind`, `v-on`, modifiers, dynamic arguments).
- `src/templates` — optimisations of the template tree.
- `src/analyzer` — template scopes and the variables they introduce.
- `src/compiler` — render-function code generation; `gen_spec.rs` states, as spec
  functions, the text each generator writes, and the generators are proved against it.
- `src/transform` — the transform rules: template expressions as a tree
  (`script_expr.rs`: printing and scoping) and their rewriting by binding types
  (`expr_transform.rs`), the scope and expressions of an element
  (`element_transform.rs`), expression prefixes and binding types,
  component and directive resolution, `v-on`/`v-model` rules, asset URLs,
  whitespace, the patch markers of one property and of an element's vnode call,
  the merging of duplicate props, `v-for` scopes, slots, and the folding of
  `v-if`/`v-else-if`/`v-else` siblings.
- `tests/` — executable tests of the library.
- `app/` — the command-line program and the part that parses JavaScript with
  `swc` into the library's expression tree.

Verify with Verus on `src/lib.rs`; the outside crates are `regex`,
`percent-encoding` and `url` (called from `src/` through trusted wrappers) and
`swc_core` (used by `app/`).
