# clox

A lexer for the Lox language, with the bytecode chunk and the decision core
of a stack machine, verified with Verus.

- `src/lexical.rs`: the model of scanning (what one scan does to a position
  and a line, and the tokens of a whole text), with its laws.
- `src/scanner.rs`: the scanner, proved against that model.
- `src/compiler.rs`: the listing of the tokens of a source text.
- `src/chunk.rs`: opcodes, constants, chunks and their disassembly.
- `src/vm.rs`: one step of the machine at a time; the arithmetic on doubles is
  left to the caller.
- `src/text.rs`: what is taken from std about characters and strings.
- `app/main.rs`: the program (REPL, files, printing, and the arithmetic).
