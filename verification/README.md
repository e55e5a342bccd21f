# lain

Building blocks for writing a fuzzer, verified with Verus.

- `Mutator` drives every random choice (from a `rand` `StdRng`) and keeps
  the field budget of a fuzzing iteration (`random_flags`,
  `should_early_bail_mutation`).
- Number mutations (`Mutator::mutate`) pick a boundary value, flip one bit,
  flip a set of distinct bits, or add or subtract a small amount with
  wrap-around; `is_number_mutation` in `src/number.rs` states every outcome.
- `Mutatable` and `NewFuzzed` mutate and create values; vectors grow and
  shrink within their element limits and byte budgets (`src/resize.rs`).
- `hexdump` renders bytes as a classic hex dump; `hexdump_spec` in
  `src/hexdump.rs` states the exact text.

Layout: `src/` is the verified library, `tests/` its tests, and `app/` the
parts that work on floating-point numbers or write code for derive macros.
