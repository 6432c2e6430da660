# toylang

ToyLang is a small dynamically typed language (Python meets JavaScript):
variables, functions, classes with inheritance, arrays, hashmaps and a
single `loop` keyword for counted, conditional and array loops.

## Layout

- `src/` — the verified library:
  - `lexer/`: tokens and the lexer, specified by a functional lexer (`lex`);
  - `parser/`: the syntax tree and the recursive-descent parser, specified
    by a grammar of spec functions (`program`);
  - `interpreter/resolver.rs`: the resolver, which records for each variable
    read and assignment how many scopes out its name is declared;
  - `interpreter/environment.rs`: the store of environments and how names
    are defined, read and assigned through it;
  - `interpreter/function.rs`, `interpreter/class/`: functions, classes and
    instances; `interpreter/signal.rs`: how a statement ends early;
  - `errors/`, `error.rs`, `paint.rs`: error types and their coloured reports;
  - `lib.rs`: `prepare`, which runs lexer, parser and resolver on a text.
- `tests/` — tests of the library.
- `app/` — the `toylang` command: argument handling, file reading, and the
  evaluator, whose numbers are `f64`.
