# f750c

The compiler for F750, a state machine scripting language for fighting
games, as a library verified with Verus, and a command line program around
it.

Each source line is tokenized, parsed into a semantic line, compiler
constructs (`@if` blocks, `@pry`, `@getarg`, `@engcall`) are expanded into
instructions and labels, bindings are tabled, allocated in the data section
or inlined, binding references are replaced by their addresses or values,
labels are given instruction addresses and label references are replaced
by them, and the tables are written as bytecode.

## Layout

- `src/text.rs`: characters, strings and decimal or hexadecimal text.
- `src/token.rs`, `src/tokenizer.rs`: tokens and the tokenizer.
- `src/opcode.rs`, `src/value.rs`: mnemonics, registers, constructs, data
  types, typed literals, register specifications and symbol names.
- `src/semantic.rs`, `src/parser.rs`: semantic lines and the parser.
- `src/construct.rs`: construct expansion.
- `src/compiler.rs`, `src/error.rs`: the binding and label tables.
- `src/bytecode.rs`: the bytecode stream.
- `src/util.rs`: text trimming, module names and fresh label ids.
- `src/pipeline.rs`: parsing a module's text, and compiling the expanded
  modules into a bytecode file.
- `app/`: the command line program: reading sources, running the passes,
  writing the bytecode and the semantic debug files.
- `tests/`: tests of the library.

Floating point values are held as the text they were written with; the
program encodes them when the data section is written.
