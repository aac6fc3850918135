# wqpl

A verified library for the wq language: its lexer, parser, resolver and formatter, its
command-line and prompt decisions, and the builtins that compute on values alone.

- `src/` is the library. `lexspec.rs` and `grammar.rs` state what the lexer and the parser
  return for every input; `apps/formatter.rs` states what a script formats to; the builtins
  state their results over the value model in `value.rs`.
- `vm/instruction.rs` holds the instructions of the virtual machine, and `compiler/fuse.rs`
  the fusion pass over them, stated by `fuse_once_v` and `fuse_v`.
- `app/` is the command-line program around it: reading files and the terminal, printing.
- `tests/` runs the library on concrete inputs.
