# aionc

The front end of the Aion compiler as a verified library: the lexer, the
parser, the type checker, the PL/pgSQL translator, the documentation
generator and the backend's name-level logic (generic substitution and the
recovery of expression type names), each with contracts proved by Verus.

The parser's contracts are exact on a fragment of the language, described
at the top of `src/grammar.rs`: on tokens outside it they promise only that
the parser goes forward, keeps the errors already reported and does not
fail. The type checker's contracts fix the outcome for literals, names,
operands built from them with the infix operators, calls by name, method
calls on such operands, intrinsics with literal arguments, type references,
matches, casts and dereferences of literals, blocks and `if`; on other
expressions they fix the state it leaves behind.

Layout:

- `src/` — the library. `text`, `token`, `lexer`, `grammar` (the grammar
  the parser's contracts are stated against), `parser`, `ast`, `analysis`
  (`types`, `rules`, `environment`, `checker`), `builtins`, `transpiler/sql`,
  `docs`, `pipeline` (source text to checked programs and generated text),
  `codegen` (name tables, generic substitution).
- `tests/` — tests of the library.
- `app/` — the command-line program: argument handling, file I/O and the
  walk over imported files (whether to skip, fail on or read an import,
  and what a read file contributes, are decided by `pipeline`). Lowering
  to machine code needs the LLVM backend, which this build does not
  include.

Verify with Verus on `src/lib.rs`; the tests run with `cargo test`.
