# utility_macros

Utility types in the style of TypeScript for Rust: `Partial`, `Required`,
`Readonly`, `Record`, `Pick` and unions of types or of strings.

## Layout

- `src/` is the library, verified with Verus. It holds the traits that generated
  code implements, the error type, and the logic that decides what each macro
  generates: the parsers of the container and field attributes
  (`#[utility_macros(name = "..", case_all = "..", derive = "..", where = "..")]`,
  `#[utility_macros(name = "..", case = "..", skip)]`, `#[pick(..)]`,
  `#[record(..)]`), the type rules (`Option<T>` and back), and one plan per
  derive (`derive::fields`, `derive::pick`, `derive::record`, `derive::union`).
  Each plan is stated exactly over spec functions, and the laws that relate the
  derives (such as `Required` undoing `Partial` on a field's type) are proof
  functions beside them.
- `src/` calls `convert_case` to re-case names (a wrapper whose contract names
  the result) and `proc_macro2` to check that a derive list or a where clause
  splits into Rust tokens (a wrapper that promises nothing of its answer, which
  depends on whether it runs inside a procedural macro; the functions ending in
  `_lexed` take that answer as an argument and have exact contracts).
- The code that the macros generate calls two verified helpers of `src/`:
  `record::try_fill` for `Record::try_from_entries` and `partial::first_missing`
  for the `MissingField` checks of `Partial` and `Required`.
- `app/` reads the macro input with `syn`, turns it into the library's plain
  models, asks the library for the plan, and writes the tokens with `quote`.
- `tests/` runs the library on concrete inputs.
