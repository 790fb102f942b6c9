# lang

A small scripting language with a lexer, a parser, a pretty printer, a type registry, a
tree-walking interpreter, an interactive session and a lowering to a typed intermediate form.

- `src/` is the library, verified with Verus. Each public function states what it returns in
  its contract, over mathematical models: `lexer::lex_spec`, `parser::parse_statement_spec` and
  `parser::parse_program_spec` describe the syntax, `semantics` describes how statements run,
  `mir::lower_program` the lowering and `pretty::fmt_stmt` the formatting. Laws that relate
  several operations are public proof functions whose names start with `law_`.
- `app/` is the `lang` command: the interactive loop, file handling, building executables with
  `cargo`, native code generation with Cranelift, and task scheduling on a thread pool.
- `tests/` runs the library on concrete programs.

Floating-point arithmetic is left to an implementation of `value::FloatOps`; the command and
the tests use the host's `f64`.
