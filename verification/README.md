# Erwin front end

A verified front end for the Erwin language, written in Verus.

- `src/` is the library, every function of it verified:
  - `scan`, `lexer`: two lexers from source text to tokens, each proved equal
    to a spec lexer, with laws on the end-of-file token and on joined texts;
  - `parser`: a recursive descent parser proved equal to the grammar written
    as spec functions in `parser/syntax.rs` and `parser/grammar.rs`;
  - `resolver`: module paths named by imports, and which modules to load;
  - `checker`: symbol tables per module, the walk over a module's imports
    with its circular-import guard, and the resolution of expressions;
  - `types`, `symbols`, `token`, `ast`, `text`, `error`: the vocabulary.
- `tests/` runs the library on concrete inputs.
- `app/` is the `erwin` command: it reads the files, lexes and parses them
  with the library, builds the module registry and runs the checker.
