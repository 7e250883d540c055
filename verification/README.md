# sea

A compiler for the Sea language, which generates C, with an interactive
sandbox for writing programs line by line.

The library in `src/` holds the compiler's logic with its contracts, proved by
Verus:

- `parse/`: the lexer, the parser with a model of its grammar, the syntax
  tree, its pretty printer and its Polish-notation view;
- `compile/`: the symbol table with scopes, type inference, pragmas and the
  choice of the files that a `use` brings in;
- `backend/`: the C code generator, described by a model of the text and
  state that each node gives;
- `sandbox/`: the sandbox's buffer and its commands;
- `chars.rs`, `text.rs`, `util.rs`: characters, strings and source lines.

`app/` is the program around it: the command line, reading and writing files,
listing module directories, running the C compiler and the sandbox's prompt.

`tests/` holds the tests of the library.
