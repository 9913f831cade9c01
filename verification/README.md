# trdelnik

The verified core of a testing and fuzzing toolkit for Anchor programs.

- `src/fuzzer_generator.rs` generates `fuzz_instructions.rs` from the
  description of the programs (`src/idl.rs`): the fuzzed instruction enum,
  the data types of each instruction, the `IxOps` implementations and the
  storage of all accounts, whose fields are the distinct account names in
  ascending order.
- `src/snapshot_generator.rs` generates `accounts_snapshots.rs` from the
  texts of the program sources, parsed by `src/source.rs` into the model
  of `src/syntax_model.rs`: one snapshot struct and
  one deserialization routine per distinct context, and a type alias for
  every further instruction with the same context.
- `src/fuzz_command.rs` decides which fuzzer run the `fuzz` command asks
  for and in which workspace; `src/tester.rs` holds the workspace root of a
  test.
- `src/text.rs` holds the text helpers and the ordering of names;
  `src/syntax.rs` and `src/source.rs` the calls into `syn`, `proc_macro2`,
  `heck` and the Anchor account parser, whose contracts are trusted.

Every generated source is specified as a token text: tokens separated by
one space, the way the token printer of `proc_macro2` writes them. That
this text is what the printer writes is not proved; the tests show it by
comparing the output with sources parsed and printed by `syn`.

`app/` is the command line: it reads the source files, finds the
workspace configuration and starts the fuzzer and the tests.
